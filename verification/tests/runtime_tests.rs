//! Scenario tests of the tool index, the protocol client's correlation
//! state, the server manager's health and reconnection machine, the tool
//! executors and the streaming re-encoders.

use bamboo_agent::anthropic::{
    anthropic_done_line, anthropic_encode_chunk, anthropic_message_start, AnthropicStreamEncoder,
};
use bamboo_agent::client_core::ClientCorrelation;
use bamboo_agent::errors::{llm_error_for_status, protocol_error_of, LLMError, McpError as WireError};
use bamboo_agent::executor::tool_error_from_mcp;
use bamboo_agent::gemini::messages_to_gemini_contents;
use bamboo_agent::stream::{accumulate_chunks, sse_post_url, validate_header};
use bamboo_agent::config::{McpServerConfig, ReconnectConfig, StdioConfig, TransportConfig};
use bamboo_agent::executor::{
    composite_after_builtin, format_result_content, mcp_execute_finish, mcp_execute_prepare,
    CompositeNext, ToolError, ToolResult,
};
use bamboo_agent::gemini::{
    convert_gemini_tools, gemini_content_to_message, gemini_frames_for_chunk,
    message_to_gemini_content, parse_gemini_sse_event, GeminiFunctionDeclaration, GeminiStreamState,
    GeminiTool,
};
use bamboo_agent::index::ToolIndex;
use bamboo_agent::json::Json;
use bamboo_agent::llm::{FunctionCall, LLMChunk, Message, ToolCall};
use bamboo_agent::manager_core::{HealthDirective, McpServerManagerCore, ReconnectDecision};
use bamboo_agent::parse::parse_json_text;
use bamboo_agent::rpc::{classify_json, mcp_tool_call_params, request_to_json, Inbound, JsonRpcRequest};
use bamboo_agent::json::json_to_string;
use bamboo_agent::types::{McpCallResult, McpContentItem, McpEvent, McpResource, McpTool, ServerStatus};

fn tool(name: &str) -> McpTool {
    McpTool {
        name: name.to_string(),
        description: format!("tool {}", name),
        parameters: parse_json_text("{\"type\":\"object\"}").unwrap(),
    }
}

fn server_config(id: &str, initial: u64, max: u64, attempts: u32) -> McpServerConfig {
    McpServerConfig {
        id: id.to_string(),
        name: None,
        enabled: true,
        transport: TransportConfig::Stdio(StdioConfig {
            command: "node".to_string(),
            args: vec![],
            cwd: None,
            env: vec![],
            startup_timeout_ms: 20000,
        }),
        request_timeout_ms: 60000,
        healthcheck_interval_ms: 50,
        reconnect: ReconnectConfig {
            enabled: true,
            initial_backoff_ms: initial,
            max_backoff_ms: max,
            max_attempts: attempts,
        },
        allowed_tools: vec![],
        denied_tools: vec![],
    }
}

#[test]
fn allow_and_deny_lists_filter_registration() {
    // A server exposing {a, b, c} with allowed = [a, b] and denied = [b]
    // registers exactly a; with allowed = [] and denied = [b], {a, c}.
    let mut index = ToolIndex::new();
    let tools = vec![tool("a"), tool("b"), tool("c")];
    let added = index.register_server_tools(
        "s",
        &tools,
        &vec!["a".to_string(), "b".to_string()],
        &vec!["b".to_string()],
    );
    assert_eq!(added.len(), 1);
    assert_eq!(added[0].alias, "mcp__s__a");
    assert_eq!(added[0].original_name, "a");

    let mut index2 = ToolIndex::new();
    let added2 = index2.register_server_tools("s", &tools, &vec![], &vec!["b".to_string()]);
    let names: Vec<String> = added2.iter().map(|a| a.original_name.clone()).collect();
    assert_eq!(names, vec!["a".to_string(), "c".to_string()]);
}

#[test]
fn registered_aliases_resolve_until_removed() {
    let mut index = ToolIndex::new();
    let added = index.register_server_tools("fs", &vec![tool("read")], &vec![], &vec![]);
    assert_eq!(added.len(), 1);
    let hit = index.lookup("mcp__fs__read").expect("registered");
    assert_eq!(hit.server_id, "fs");
    assert_eq!(hit.original_name, "read");

    index.remove_server_tools("fs");
    assert!(index.lookup("mcp__fs__read").is_none());
}

#[test]
fn waiters_resolve_exactly_once() {
    let mut c = ClientCorrelation::new();
    let id1 = c.allocate();
    let id2 = c.allocate();
    assert_eq!(id1, 1);
    assert_eq!(id2, 2);
    assert!(c.has_waiter(id1));
    assert!(c.take_waiter(id1));
    assert!(!c.has_waiter(id1));
    // a late response for a resolved or timed-out id resolves nothing
    assert!(!c.take_waiter(id1));
    assert!(c.take_waiter(id2));
}

#[test]
fn requests_classify_back_as_responses() {
    let req = JsonRpcRequest::new(7, "tools/list", None);
    let j = request_to_json(&req);
    let text = json_to_string(&j);
    assert_eq!(text, "{\"jsonrpc\":\"2.0\",\"id\":7,\"method\":\"tools/list\"}");

    let resp = parse_json_text("{\"jsonrpc\":\"2.0\",\"id\":7,\"result\":{\"ok\":true}}").unwrap();
    match classify_json(&resp) {
        Inbound::Response(r) => {
            assert_eq!(r.id, 7);
            assert!(r.result.is_some());
            assert!(r.error.is_none());
        }
        other => panic!("expected a response, got {:?}", other),
    }

    let notif = parse_json_text("{\"jsonrpc\":\"2.0\",\"method\":\"update\"}").unwrap();
    assert!(matches!(classify_json(&notif), Inbound::Notification(_)));

    let bad = parse_json_text("{\"jsonrpc\":\"2.0\"}").unwrap();
    assert!(matches!(classify_json(&bad), Inbound::Malformed));

    let err = parse_json_text(
        "{\"jsonrpc\":\"2.0\",\"id\":1,\"error\":{\"code\":-32600,\"message\":\"Invalid Request\"}}",
    )
    .unwrap();
    match classify_json(&err) {
        Inbound::Response(r) => {
            let e = r.error.expect("error member");
            assert_eq!(e.code, -32600);
            assert_eq!(e.message, "Invalid Request");
        }
        other => panic!("expected a response, got {:?}", other),
    }
}

#[test]
fn backoff_doubles_and_caps() {
    // initial = 1000, max = 30000: 1000, 2000, 4000, 8000, 16000, 30000, 30000, ...
    let mut core = McpServerManagerCore::new();
    core.finish_start_server(server_config("s", 1000, 30000, 0), vec![], 1).unwrap();
    let mut backoffs = vec![1000u64];
    let mut cur = 1000u64;
    for _ in 0..6 {
        cur = core.fail_reconnect_attempt("s", "connect refused", cur);
        backoffs.push(cur);
    }
    assert_eq!(backoffs, vec![1000, 2000, 4000, 8000, 16000, 30000, 30000]);
}

#[test]
fn unlimited_attempts_never_give_up() {
    let mut core = McpServerManagerCore::new();
    core.finish_start_server(server_config("s", 10, 100, 0), vec![], 1).unwrap();
    assert!(core.begin_reconnect("s"));
    for attempt in 0..1000u32 {
        assert_eq!(core.reconnect_poll("s", attempt), ReconnectDecision::TryAgain);
    }
}

#[test]
fn bounded_reconnect_reaches_the_error_state() {
    // healthcheck_interval_ms = 50, initial = 10, max = 100, max_attempts = 3:
    // Degraded, three failed attempts, then the terminal error event.
    let mut core = McpServerManagerCore::new();
    let mut events: Vec<McpEvent> = Vec::new();
    let (_aliases, start_events) =
        core.finish_start_server(server_config("s", 10, 100, 3), vec![], 1).unwrap();
    assert!(matches!(
        start_events[0],
        McpEvent::ServerStatusChanged { status: ServerStatus::Ready, .. }
    ));

    let (directive, tick_events) = core.health_tick("s", false, "ping failed", 2);
    assert_eq!(directive, HealthDirective::Failed { reconnect: true });
    match &tick_events[0] {
        McpEvent::ServerStatusChanged { server_id, status, error } => {
            assert_eq!(server_id, "s");
            assert_eq!(*status, ServerStatus::Degraded);
            assert_eq!(error.as_deref(), Some("ping failed"));
        }
        other => panic!("expected a status event, got {:?}", other),
    }
    events.extend(tick_events);

    assert!(core.begin_reconnect("s"));
    let mut attempt = 0u32;
    let mut backoff = 10u64;
    loop {
        match core.reconnect_poll("s", attempt) {
            ReconnectDecision::TryAgain => {
                attempt += 1;
                backoff = core.fail_reconnect_attempt("s", "still down", backoff);
            }
            ReconnectDecision::GiveUp => {
                events.extend(core.give_up_reconnect("s", 99));
                break;
            }
            ReconnectDecision::Stop => panic!("should not stop"),
        }
    }
    assert_eq!(attempt, 3);
    assert_eq!(backoff, 80);
    match events.last().unwrap() {
        McpEvent::ServerStatusChanged { server_id, status, error } => {
            assert_eq!(server_id, "s");
            assert_eq!(*status, ServerStatus::Error);
            assert_eq!(error.as_deref(), Some("Max reconnection attempts reached"));
        }
        other => panic!("expected the error event, got {:?}", other),
    }
    let info = core.get_server_info("s").unwrap();
    assert_eq!(info.status, ServerStatus::Error);
}

#[test]
fn stopping_a_server_emits_only_the_stopped_event() {
    let mut core = McpServerManagerCore::new();
    core.finish_start_server(server_config("s", 10, 100, 0), vec![tool("t")], 1).unwrap();
    let events = core.stop_server("s").unwrap();
    assert_eq!(events.len(), 1);
    assert!(matches!(
        events[0],
        McpEvent::ServerStatusChanged { status: ServerStatus::Stopped, .. }
    ));
    // after the stop, no transition emits anything for the server
    let (directive, tick_events) = core.health_tick("s", false, "x", 6);
    assert_eq!(directive, HealthDirective::Exit);
    assert!(tick_events.is_empty());
    assert!(core.call_tool_check("s").is_err());
    assert!(core.stop_server("s").is_err());
}

#[test]
fn recovery_promotes_a_degraded_server() {
    let mut core = McpServerManagerCore::new();
    core.finish_start_server(server_config("s", 10, 100, 0), vec![], 1).unwrap();
    core.health_tick("s", false, "down", 2);
    let (directive, events) = core.health_tick("s", true, "", 3);
    assert_eq!(directive, HealthDirective::Healthy);
    assert!(matches!(
        events[0],
        McpEvent::ServerStatusChanged { status: ServerStatus::Ready, .. }
    ));
    let info = core.get_server_info("s").unwrap();
    assert_eq!(info.status, ServerStatus::Ready);
    assert_eq!(info.last_ping_at, Some(3));
}

#[test]
fn flagged_errors_become_failed_results_not_tool_errors() {
    // tools/call answering isError = true is a failed ToolResult, never a ToolError
    let result = McpCallResult {
        content: vec![McpContentItem::Text { text: "boom".to_string() }],
        is_error: true,
    };
    let r = mcp_execute_finish(&result);
    assert!(!r.success);
    assert_eq!(r.result, "boom");
}

#[test]
fn composite_falls_back_only_on_not_found() {
    // a built-in NotFound falls through to MCP; an Execution error does not
    let nf = composite_after_builtin(Err(ToolError::NotFound("not found".to_string())));
    assert_eq!(nf, CompositeNext::TryMcp);

    let ok = composite_after_builtin(Ok(ToolResult {
        success: true,
        result: "Built-in result".to_string(),
        display_preference: None,
    }));
    match ok {
        CompositeNext::Return(Ok(r)) => assert_eq!(r.result, "Built-in result"),
        other => panic!("expected the built-in result, got {:?}", other),
    }

    let err = composite_after_builtin(Err(ToolError::Execution("Built-in error".to_string())));
    match err {
        CompositeNext::Return(Err(ToolError::Execution(m))) => assert_eq!(m, "Built-in error"),
        other => panic!("expected the execution error, got {:?}", other),
    }

    // the MCP side resolves a registered alias
    let mut index = ToolIndex::new();
    index.register_server_tools("fs", &vec![tool("read")], &vec![], &vec![]);
    let call = ToolCall {
        id: "1".to_string(),
        tool_type: "function".to_string(),
        function: FunctionCall {
            name: "mcp__fs__read".to_string(),
            arguments: "{\"path\":\"/x\"}".to_string(),
        },
    };
    let (alias, args) = mcp_execute_prepare(&index, &call).unwrap();
    assert_eq!(alias.server_id, "fs");
    assert_eq!(alias.original_name, "read");
    assert_eq!(json_to_string(&args), "{\"path\":\"/x\"}");
    let params = mcp_tool_call_params(&alias.original_name, args);
    assert!(json_to_string(&params).contains("\"name\":\"read\""));

    let unknown = ToolCall {
        id: "2".to_string(),
        tool_type: "function".to_string(),
        function: FunctionCall { name: "mcp__fs__write".to_string(), arguments: "{}".to_string() },
    };
    assert!(matches!(mcp_execute_prepare(&index, &unknown), Err(ToolError::NotFound(_))));
}

#[test]
fn content_items_flatten_to_text() {
    let content = vec![
        McpContentItem::Text { text: "Hello".to_string() },
        McpContentItem::Image { data: "base64imagedata".to_string(), mime_type: "image/png".to_string() },
        McpContentItem::Resource {
            resource: McpResource {
                uri: "file:///test.txt".to_string(),
                mime_type: None,
                text: Some("File content".to_string()),
                blob: None,
            },
        },
    ];
    let text = format_result_content(&content);
    assert_eq!(
        text,
        "Hello\n[Image: image/png (15 bytes)]\n[Resource file:///test.txt]: File content"
    );
}

#[test]
fn anthropic_event_names_follow_the_protocol_order() {
    // Token("OK"), ToolCalls([search]), Done: message_start, content_block_start,
    // content_block_delta, content_block_start, content_block_delta,
    // content_block_stop, message_delta, message_stop, then data: [DONE].
    let mut names = vec![anthropic_message_start("msg_1", "test-model").name];
    let mut enc = AnthropicStreamEncoder { text_open: false, text_index: 0, next_index: 0 };
    let chunks = vec![
        LLMChunk::Token("OK".to_string()),
        LLMChunk::ToolCalls(vec![ToolCall {
            id: "call_1".to_string(),
            tool_type: "function".to_string(),
            function: FunctionCall {
                name: "search".to_string(),
                arguments: "{\"q\":\"test\"}".to_string(),
            },
        }]),
        LLMChunk::Done,
    ];
    let mut payloads = Vec::new();
    for c in &chunks {
        for ev in anthropic_encode_chunk(&mut enc, c) {
            names.push(ev.name.clone());
            payloads.push(json_to_string(&ev.data));
        }
    }
    assert_eq!(
        names,
        vec![
            "message_start",
            "content_block_start",
            "content_block_delta",
            "content_block_start",
            "content_block_delta",
            "content_block_stop",
            "message_delta",
            "message_stop",
        ]
    );
    assert!(payloads.iter().any(|p| p.contains("\"text_delta\"") && p.contains("\"OK\"")));
    assert!(payloads
        .iter()
        .any(|p| p.contains("\"input_json_delta\"") && p.contains("{\\\"q\\\":\\\"test\\\"}")));
    assert_eq!(anthropic_done_line(), "data: [DONE]\n\n");
}

#[test]
fn gemini_frames_carry_the_tool_call_arguments_object() {
    // The frame for ToolCalls([{name: search, arguments: {"q":"test"}}]) holds a
    // functionCall part whose args equal the object {"q":"test"}.
    let chunk = LLMChunk::ToolCalls(vec![ToolCall {
        id: "call_1".to_string(),
        tool_type: "function".to_string(),
        function: FunctionCall {
            name: "search".to_string(),
            arguments: "{\"q\":\"test\"}".to_string(),
        },
    }]);
    let frames = gemini_frames_for_chunk(&chunk);
    assert_eq!(frames.len(), 1);
    let frame = &frames[0];
    assert!(frame.starts_with("data: "));
    assert!(frame.ends_with("\n\n"));
    let body = parse_json_text(frame.trim_start_matches("data: ").trim_end()).expect("frame JSON");
    let call = body
        .get("candidates").unwrap().as_array().unwrap()[0]
        .get("content").unwrap()
        .get("parts").unwrap().as_array().unwrap()[0]
        .get("functionCall").unwrap();
    assert_eq!(call.get("name").unwrap(), &Json::Str("search".to_string()));
    let expected = parse_json_text("{\"q\":\"test\"}").unwrap();
    assert_eq!(call.get("args").unwrap(), &expected);

    // the closing frame carries the STOP reason
    let done_frames = gemini_frames_for_chunk(&LLMChunk::Done);
    assert!(done_frames[0].contains("\"finishReason\":\"STOP\""));
}

#[test]
fn gemini_round_trip_preserves_names_and_argument_objects() {
    let msg = Message::assistant(
        "",
        Some(vec![ToolCall {
            id: "call_1".to_string(),
            tool_type: "function".to_string(),
            function: FunctionCall {
                name: "search".to_string(),
                arguments: "{\"q\":\"test\"}".to_string(),
            },
        }]),
    );
    let content = message_to_gemini_content(&msg);
    assert_eq!(content.role, "model");
    let back = gemini_content_to_message(&content);
    let calls = back.tool_calls.expect("calls survive");
    assert_eq!(calls.len(), 1);
    assert_eq!(calls[0].function.name, "search");
    let args_back = parse_json_text(&calls[0].function.arguments).unwrap();
    let expected = parse_json_text("{\"q\":\"test\"}").unwrap();
    assert_eq!(args_back, expected);
}

#[test]
fn gemini_stream_events_synthesize_call_ids() {
    let mut state = GeminiStreamState::default();
    let data = r#"{"candidates":[{"content":{"role":"model","parts":[{"text":"OK"},{"functionCall":{"name":"search","args":{"q":"test"}}}]},"finishReason":"STOP"}]}"#;
    let chunks = parse_gemini_sse_event(&mut state, data).unwrap();
    assert_eq!(chunks.len(), 3);
    assert!(matches!(&chunks[0], LLMChunk::Token(t) if t == "OK"));
    match &chunks[1] {
        LLMChunk::ToolCalls(calls) => {
            assert_eq!(calls[0].id, "call_0");
            assert_eq!(calls[0].function.name, "search");
            let args = parse_json_text(&calls[0].function.arguments).unwrap();
            assert_eq!(args, parse_json_text("{\"q\":\"test\"}").unwrap());
        }
        other => panic!("expected tool calls, got {:?}", other),
    }
    assert!(matches!(chunks[2], LLMChunk::Done));
    assert!(parse_gemini_sse_event(&mut state, "not json").is_err());
}

#[test]
fn gemini_tool_declarations_flatten_in_order() {
    let tools = Some(vec![GeminiTool {
        function_declarations: vec![
            GeminiFunctionDeclaration {
                name: "a".to_string(),
                description: Some("first".to_string()),
                parameters: parse_json_text("{\"type\":\"object\"}").unwrap(),
            },
            GeminiFunctionDeclaration {
                name: "b".to_string(),
                description: None,
                parameters: parse_json_text("{}").unwrap(),
            },
        ],
    }]);
    let schemas = convert_gemini_tools(&tools);
    assert_eq!(schemas.len(), 2);
    assert_eq!(schemas[0].function.name, "a");
    assert_eq!(schemas[0].function.description, "first");
    assert_eq!(schemas[1].function.name, "b");
    assert_eq!(schemas[1].function.description, "");
}

#[test]
fn inbound_gemini_requests_parse_into_contents_and_tools() {
    let req = parse_json_text(
        r#"{"contents":[{"role":"user","parts":[{"text":"Hi"}]},{"role":"model","parts":[{"functionCall":{"name":"search","args":{"q":"test"}}}]}],"tools":[{"functionDeclarations":[{"name":"search","parameters":{"type":"object"}}]}]}"#,
    )
    .unwrap();
    let contents = bamboo_agent::gemini::contents_from_json(&req);
    assert_eq!(contents.len(), 2);
    assert_eq!(contents[0].role, "user");
    assert_eq!(contents[0].parts[0].text.as_deref(), Some("Hi"));
    let fc = contents[1].parts[0].function_call.as_ref().unwrap();
    assert_eq!(fc.name, "search");
    assert_eq!(fc.args, parse_json_text("{\"q\":\"test\"}").unwrap());

    let tools = bamboo_agent::gemini::tools_from_json(&req).unwrap();
    assert_eq!(tools.len(), 1);
    assert_eq!(tools[0].function_declarations[0].name, "search");

    // converting onward to internal messages keeps role and text
    let msg = gemini_content_to_message(&contents[0]);
    assert_eq!(msg.content, "Hi");
}

#[test]
fn final_gemini_answers_collect_text_and_calls() {
    let calls = vec![ToolCall {
        id: "call_1".to_string(),
        tool_type: "function".to_string(),
        function: FunctionCall {
            name: "search".to_string(),
            arguments: "{\"q\":\"test\"}".to_string(),
        },
    }];
    let answer = bamboo_agent::gemini::gemini_final_response_json("OK", &calls);
    let text = json_to_string(&answer);
    assert!(text.contains("\"finishReason\":\"STOP\""));
    assert!(text.contains("\"text\":\"OK\""));
    assert!(text.contains("\"name\":\"search\""));

    // nothing collected at all still answers one empty text part
    let empty = bamboo_agent::gemini::gemini_final_response_json("", &vec![]);
    assert!(json_to_string(&empty).contains("\"text\":\"\""));
}

#[test]
fn api_keys_are_masked_in_provider_listings() {
    let providers = parse_json_text(
        r#"{"openai":{"api_key":"sk-abcdefghijkl","model":"gpt-4o"},"gemini":{"api_key":"short"},"copilot":{"api_key":""}}"#,
    )
    .unwrap();
    let masked = bamboo_agent::settings::mask_api_keys_in_providers(providers);
    let text = json_to_string(&masked);
    assert!(text.contains("\"api_key\":\"sk-a...hijkl\"") || text.contains("\"api_key\":\"sk-a...ijkl\""));
    assert!(!text.contains("abcdefgh"));
    assert!(text.contains("\"api_key\":\"***\""));
    assert!(text.contains("\"api_key\":\"\""));
    assert!(text.contains("\"model\":\"gpt-4o\""));
}

#[test]
fn upstream_statuses_classify_per_the_design() {
    match llm_error_for_status(401, "denied") {
        LLMError::Auth(m) => {
            assert_eq!(m, "Authentication failed (HTTP 401): denied. Please check your API key.")
        }
        other => panic!("expected an authentication error, got {:?}", other),
    }
    assert!(matches!(llm_error_for_status(403, "no"), LLMError::Auth(_)));
    match llm_error_for_status(500, "boom") {
        LLMError::Api(m) => assert_eq!(m, "HTTP 500: boom"),
        other => panic!("expected an API error, got {:?}", other),
    }
}

#[test]
fn wire_errors_render_as_code_and_message() {
    match protocol_error_of(-32600, "Invalid Request") {
        WireError::Protocol(m) => assert_eq!(m, "-32600: Invalid Request"),
        other => panic!("expected a protocol error, got {:?}", other),
    }
}

#[test]
fn manager_errors_map_to_the_executor_taxonomy() {
    match tool_error_from_mcp(&WireError::ServerNotFound("fs".to_string())) {
        ToolError::NotFound(m) => assert_eq!(m, "MCP server 'fs' not found"),
        other => panic!("expected NotFound, got {:?}", other),
    }
    match tool_error_from_mcp(&WireError::ToolNotFound("read".to_string())) {
        ToolError::NotFound(m) => assert_eq!(m, "Tool 'read' not found"),
        other => panic!("expected NotFound, got {:?}", other),
    }
    match tool_error_from_mcp(&WireError::Timeout("late".to_string())) {
        ToolError::Execution(m) => assert_eq!(m, "MCP error: Timeout error: late"),
        other => panic!("expected Execution, got {:?}", other),
    }
}

#[test]
fn sse_post_urls_derive_from_the_configured_url() {
    assert_eq!(sse_post_url("http://h/sse", None), "http://h/message");
    assert_eq!(sse_post_url("http://h/api", None), "http://h/api/message");
    assert_eq!(sse_post_url("http://h/sse", Some("http://h/custom")), "http://h/custom");
    assert!(validate_header("Authorization", "Bearer abc").is_ok());
    assert!(validate_header("Bad Header\n", "x").is_err());
    assert!(validate_header("", "x").is_err());
    assert!(validate_header("X-Key", "bad\nvalue").is_err());
}

#[test]
fn accumulation_keeps_text_and_the_last_calls() {
    let chunks = vec![
        LLMChunk::Token("Hel".to_string()),
        LLMChunk::ToolCalls(vec![ToolCall {
            id: "a".to_string(),
            tool_type: "function".to_string(),
            function: FunctionCall { name: "first".to_string(), arguments: "{}".to_string() },
        }]),
        LLMChunk::Token("lo".to_string()),
        LLMChunk::ToolCalls(vec![ToolCall {
            id: "b".to_string(),
            tool_type: "function".to_string(),
            function: FunctionCall { name: "second".to_string(), arguments: "{}".to_string() },
        }]),
        LLMChunk::Done,
        LLMChunk::Token("late".to_string()),
    ];
    let (text, calls) = accumulate_chunks(&chunks);
    assert_eq!(text, "Hello");
    let calls = calls.expect("calls survive");
    assert_eq!(calls.len(), 1);
    assert_eq!(calls[0].function.name, "second");
}

#[test]
fn system_messages_split_into_the_instruction() {
    let messages = vec![
        Message::system("be careful"),
        Message::user("Hi"),
        Message::assistant("Hello!", None),
    ];
    let (contents, system) = messages_to_gemini_contents(&messages);
    assert_eq!(contents.len(), 2);
    assert_eq!(contents[0].role, "user");
    assert_eq!(contents[1].role, "model");
    let sys = system.expect("system instruction");
    assert_eq!(sys.parts[0].text.as_deref(), Some("be careful"));

    let (no_contents, no_sys) = messages_to_gemini_contents(&vec![Message::user("x")]);
    assert_eq!(no_contents.len(), 1);
    assert!(no_sys.is_none());
}

#[test]
fn published_tools_list_under_their_aliases() {
    let mut core = McpServerManagerCore::new();
    core.finish_start_server(server_config("fs", 10, 100, 0), vec![tool("read")], 1).unwrap();
    let info = core.get_tool_info("fs", "read").expect("cached");
    assert_eq!(info.name, "read");
    assert!(core.get_tool_info("fs", "write").is_none());
    assert!(core.get_tool_info("gone", "read").is_none());

    let schemas = core.list_tool_schemas();
    assert_eq!(schemas.len(), 1);
    assert_eq!(schemas[0].schema_type, "function");
    assert_eq!(schemas[0].function.name, "mcp__fs__read");
    assert_eq!(schemas[0].function.description, "tool read");

    let builtin = vec![];
    let combined = bamboo_agent::executor::concat_tool_schemas(builtin, schemas);
    assert_eq!(combined.len(), 1);
}

#[test]
fn releasing_the_reconnect_claim_changes_nothing_else() {
    let mut core = McpServerManagerCore::new();
    core.finish_start_server(server_config("s", 10, 100, 0), vec![], 1).unwrap();
    assert!(core.begin_reconnect("s"));
    assert!(!core.begin_reconnect("s"));
    core.end_reconnect("s");
    assert!(core.begin_reconnect("s"));
}
