//! Tests of the MCP configuration, error, data-model and wire types.

use bamboo_agent::config::{
    default_connect_timeout, default_healthcheck_interval, default_initial_backoff,
    default_max_backoff, default_request_timeout, default_startup_timeout, default_true,
    default_version, HeaderConfig, McpConfig, ReconnectConfig, SseConfig,
};
use bamboo_agent::errors::McpError;
use bamboo_agent::rpc::{
    Implementation, McpToolCallResult, PromptsCapability, ResourcesCapability, ToolsCapability,
};
use bamboo_agent::types::{
    McpCallResult, McpContentItem, McpEvent, McpResource, ServerStatus, ToolAlias,
};

#[test]
fn test_mcp_config_default() {
    let config = McpConfig::default();
    assert_eq!(config.version, 1);
    assert!(config.servers.is_empty());
}

#[test]
fn config_test_reconnect_config_default() {
    let config = ReconnectConfig::default();
    assert!(config.enabled);
    assert_eq!(config.initial_backoff_ms, 1000);
    assert_eq!(config.max_backoff_ms, 30000);
    assert_eq!(config.max_attempts, 0); // unlimited
}

#[test]
fn config_test_header_config() {
    let header = HeaderConfig {
        name: "Content-Type".to_string(),
        value: "application/json".to_string(),
    };
    assert_eq!(header.name, "Content-Type");
    assert_eq!(header.value, "application/json");
}

#[test]
fn defaults_match_the_wire_format() {
    assert_eq!(default_version(), 1);
    assert!(default_true());
    assert_eq!(default_request_timeout(), 60000);
    assert_eq!(default_healthcheck_interval(), 30000);
    assert_eq!(default_startup_timeout(), 20000);
    assert_eq!(default_connect_timeout(), 10000);
    assert_eq!(default_initial_backoff(), 1000);
    assert_eq!(default_max_backoff(), 30000);
}

#[test]
fn test_error_display_transport() {
    let error = McpError::Transport("connection failed".to_string());
    assert_eq!(error.message(), "Transport error: connection failed");
}

#[test]
fn test_error_display_protocol() {
    let error = McpError::Protocol("invalid message".to_string());
    assert_eq!(error.message(), "Protocol error: invalid message");
}

#[test]
fn test_error_display_connection() {
    let error = McpError::Connection("timeout".to_string());
    assert_eq!(error.message(), "Connection error: timeout");
}

#[test]
fn test_error_display_timeout() {
    let error = McpError::Timeout("request timed out".to_string());
    assert_eq!(error.message(), "Timeout error: request timed out");
}

#[test]
fn test_error_display_tool_execution() {
    let error = McpError::ToolExecution("tool failed".to_string());
    assert_eq!(error.message(), "Tool execution error: tool failed");
}

#[test]
fn test_error_display_server_not_found() {
    let error = McpError::ServerNotFound("test-server".to_string());
    assert_eq!(error.message(), "Server not found: test-server");
}

#[test]
fn test_error_display_tool_not_found() {
    let error = McpError::ToolNotFound("test-tool".to_string());
    assert_eq!(error.message(), "Tool not found: test-tool");
}

#[test]
fn test_error_display_serialization() {
    let error = McpError::Serialization("invalid JSON".to_string());
    assert_eq!(error.message(), "Serialization error: invalid JSON");
}

#[test]
fn test_error_display_invalid_config() {
    let error = McpError::InvalidConfig("missing field".to_string());
    assert_eq!(error.message(), "Invalid configuration: missing field");
}

#[test]
fn test_error_display_disconnected() {
    let error = McpError::Disconnected;
    assert_eq!(error.message(), "Server disconnected");
}

#[test]
fn test_error_display_already_running() {
    let error = McpError::AlreadyRunning("server1".to_string());
    assert_eq!(error.message(), "Server already running: server1");
}

#[test]
fn test_error_display_not_running() {
    let error = McpError::NotRunning("server1".to_string());
    assert_eq!(error.message(), "Server not running: server1");
}

#[test]
fn test_from_io_error() {
    let io_err = std::io::Error::new(std::io::ErrorKind::NotFound, "file not found");
    let mcp_error = McpError::from_io(io_err);
    match mcp_error {
        McpError::Transport(_) => {}
        _ => panic!("Expected Transport error"),
    }
}

#[test]
fn test_error_debug() {
    let error = McpError::Disconnected;
    let debug_str = format!("{:?}", error);
    assert!(debug_str.contains("Disconnected"));
}

#[test]
fn manager_test_reconnect_config_default() {
    let config = ReconnectConfig::default();
    assert!(config.enabled);
    assert_eq!(config.initial_backoff_ms, 1000);
    assert_eq!(config.max_backoff_ms, 30000);
    assert_eq!(config.max_attempts, 0);
}

#[test]
fn test_reconnect_config_custom() {
    let config = ReconnectConfig {
        enabled: true,
        initial_backoff_ms: 500,
        max_backoff_ms: 10000,
        max_attempts: 5,
    };
    assert!(config.enabled);
    assert_eq!(config.initial_backoff_ms, 500);
    assert_eq!(config.max_backoff_ms, 10000);
    assert_eq!(config.max_attempts, 5);
}

#[test]
fn manager_test_server_status_display() {
    assert_eq!(ServerStatus::Ready.status_str(), "ready");
    assert_eq!(ServerStatus::Degraded.status_str(), "degraded");
    assert_eq!(ServerStatus::Error.status_str(), "error");
    assert_eq!(ServerStatus::Stopped.status_str(), "stopped");
    assert_eq!(ServerStatus::Connecting.status_str(), "connecting");
}

#[test]
fn test_exponential_backoff_calculation() {
    let initial = 1000u64;
    let max = 30000u64;
    let mut current = initial;

    current = std::cmp::min(current * 2, max);
    assert_eq!(current, 2000);

    current = std::cmp::min(current * 2, max);
    assert_eq!(current, 4000);

    current = std::cmp::min(current * 2, max);
    assert_eq!(current, 8000);

    current = std::cmp::min(current * 2, max);
    assert_eq!(current, 16000);

    current = std::cmp::min(current * 2, max);
    assert_eq!(current, 30000); // capped at max

    current = std::cmp::min(current * 2, max);
    assert_eq!(current, 30000);
}

#[test]
fn test_exponential_backoff_max_zero() {
    let config = ReconnectConfig {
        enabled: true,
        initial_backoff_ms: 100,
        max_backoff_ms: 1000,
        max_attempts: 0,
    };
    assert_eq!(config.max_attempts, 0);
}

#[test]
fn test_reconnect_disabled() {
    let config = ReconnectConfig {
        enabled: false,
        initial_backoff_ms: 100,
        max_backoff_ms: 1000,
        max_attempts: 3,
    };
    assert!(!config.enabled);
}

#[test]
fn test_tools_capability() {
    let caps = ToolsCapability { list_changed: true };
    assert!(caps.list_changed);
}

#[test]
fn test_prompts_capability() {
    let caps = PromptsCapability { list_changed: false };
    assert!(!caps.list_changed);
}

#[test]
fn test_resources_capability() {
    let caps = ResourcesCapability { subscribe: true, list_changed: false };
    assert!(caps.subscribe);
    assert!(!caps.list_changed);
}

#[test]
fn test_implementation() {
    let impl_info = Implementation { name: "test".to_string(), version: "1.0.0".to_string() };
    assert_eq!(impl_info.name, "test");
    assert_eq!(impl_info.version, "1.0.0");
}

#[test]
fn test_mcp_tool_call_result() {
    let result = McpToolCallResult { content: vec![], is_error: false };
    assert!(!result.is_error);
    assert!(result.content.is_empty());
}

#[test]
fn sse_test_header_config() {
    let header = HeaderConfig {
        name: "Content-Type".to_string(),
        value: "application/json".to_string(),
    };
    assert_eq!(header.name, "Content-Type");
    assert_eq!(header.value, "application/json");
}

#[test]
fn test_sse_config_default_timeout() {
    let config = SseConfig {
        url: "http://localhost:8080/sse".to_string(),
        headers: vec![],
        connect_timeout_ms: 10000, // default
    };
    assert_eq!(config.connect_timeout_ms, 10000);
}

#[test]
fn test_sse_config_custom_timeout() {
    let config = SseConfig {
        url: "http://localhost:8080/sse".to_string(),
        headers: vec![],
        connect_timeout_ms: 5000,
    };
    assert_eq!(config.connect_timeout_ms, 5000);
}

#[test]
fn test_mcp_call_result() {
    let result = McpCallResult {
        content: vec![McpContentItem::Text { text: "success".to_string() }],
        is_error: false,
    };
    assert!(!result.is_error);
    assert_eq!(result.content.len(), 1);
}

#[test]
fn test_mcp_call_result_error() {
    let result = McpCallResult {
        content: vec![McpContentItem::Text { text: "error occurred".to_string() }],
        is_error: true,
    };
    assert!(result.is_error);
}

#[test]
fn test_mcp_content_item_text() {
    let item = McpContentItem::Text { text: "hello".to_string() };
    match item {
        McpContentItem::Text { text } => assert_eq!(text, "hello"),
        _ => panic!("Expected Text variant"),
    }
}

#[test]
fn test_mcp_content_item_image() {
    let item = McpContentItem::Image {
        data: "base64data".to_string(),
        mime_type: "image/png".to_string(),
    };
    match item {
        McpContentItem::Image { data, mime_type } => {
            assert_eq!(data, "base64data");
            assert_eq!(mime_type, "image/png");
        }
        _ => panic!("Expected Image variant"),
    }
}

#[test]
fn test_mcp_content_item_resource() {
    let item = McpContentItem::Resource {
        resource: McpResource {
            uri: "file:///test.txt".to_string(),
            mime_type: Some("text/plain".to_string()),
            text: Some("content".to_string()),
            blob: None,
        },
    };
    match item {
        McpContentItem::Resource { resource } => {
            assert_eq!(resource.uri, "file:///test.txt");
        }
        _ => panic!("Expected Resource variant"),
    }
}

#[test]
fn test_mcp_resource() {
    let resource = McpResource {
        uri: "file:///test.txt".to_string(),
        mime_type: Some("text/plain".to_string()),
        text: Some("file content".to_string()),
        blob: None,
    };
    assert_eq!(resource.uri, "file:///test.txt");
    assert_eq!(resource.mime_type, Some("text/plain".to_string()));
    assert_eq!(resource.text, Some("file content".to_string()));
}

#[test]
fn test_server_status_variants() {
    assert_eq!(ServerStatus::Connecting, ServerStatus::Connecting);
    assert_eq!(ServerStatus::Ready, ServerStatus::Ready);
    assert_eq!(ServerStatus::Degraded, ServerStatus::Degraded);
    assert_eq!(ServerStatus::Stopped, ServerStatus::Stopped);
    assert_eq!(ServerStatus::Error, ServerStatus::Error);
}

#[test]
fn types_test_server_status_display() {
    assert_eq!(ServerStatus::Connecting.status_str(), "connecting");
    assert_eq!(ServerStatus::Ready.status_str(), "ready");
    assert_eq!(ServerStatus::Degraded.status_str(), "degraded");
    assert_eq!(ServerStatus::Stopped.status_str(), "stopped");
    assert_eq!(ServerStatus::Error.status_str(), "error");
}

#[test]
fn test_tool_alias() {
    let alias = ToolAlias {
        alias: "mcp__server__tool".to_string(),
        server_id: "server".to_string(),
        original_name: "tool".to_string(),
    };
    assert_eq!(alias.alias, "mcp__server__tool");
    assert_eq!(alias.server_id, "server");
    assert_eq!(alias.original_name, "tool");
}

#[test]
fn test_mcp_event_server_status_changed() {
    let event = McpEvent::ServerStatusChanged {
        server_id: "test-server".to_string(),
        status: ServerStatus::Ready,
        error: None,
    };
    match event {
        McpEvent::ServerStatusChanged { server_id, status, error } => {
            assert_eq!(server_id, "test-server");
            assert_eq!(status, ServerStatus::Ready);
            assert!(error.is_none());
        }
        _ => panic!("Expected ServerStatusChanged variant"),
    }
}

#[test]
fn test_mcp_event_tools_changed() {
    let event = McpEvent::ToolsChanged {
        server_id: "test-server".to_string(),
        tools: vec!["tool1".to_string(), "tool2".to_string()],
    };
    match event {
        McpEvent::ToolsChanged { server_id, tools } => {
            assert_eq!(server_id, "test-server");
            assert_eq!(tools.len(), 2);
        }
        _ => panic!("Expected ToolsChanged variant"),
    }
}

#[test]
fn test_mcp_event_tool_executed() {
    let event = McpEvent::ToolExecuted {
        server_id: "test-server".to_string(),
        tool_name: "test-tool".to_string(),
        success: true,
    };
    match event {
        McpEvent::ToolExecuted { server_id, tool_name, success } => {
            assert_eq!(server_id, "test-server");
            assert_eq!(tool_name, "test-tool");
            assert!(success);
        }
        _ => panic!("Expected ToolExecuted variant"),
    }
}
