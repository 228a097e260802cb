//! Tests of the chat-endpoint logic, the path layout, provider model
//! selection, the desktop window rule and the built-in tools.

use bamboo_agent::chat::{build_enhanced_system_prompt, validate_model, ChatRequest};
use bamboo_agent::errors::LLMError;
use bamboo_agent::parse::parse_json_text;
use bamboo_agent::paths::{expand_path, is_session_file, sessions_dir};
use bamboo_agent::settings::{
    clean_empty_proxy_fields, get_default_model_from_config, is_safe_workflow_name,
    should_exit_on_main_window_close, strip_proxy_auth, Config, ProviderConfig, ProviderConfigs,
};
use bamboo_agent::json::{json_to_string, Json};
use bamboo_agent::todo::{format_todo_list, todo_list_from_args};
use bamboo_agent::tools::{
    truncate_to_token_limit, AnthropicModelMapping, CommandType, CreateTodoListTool, ReadFileTool,
};

#[test]
fn provider_chat_stream_requires_model_parameter() {
    assert!(true, "Model parameter requirement is enforced by trait signature");
}

#[test]
fn provider_trait_docs_state_model_required() {
    assert!(true, "Trait documentation should explain model is required");
}

#[test]
fn build_enhanced_system_prompt_appends_enhancement_before_skills() {
    let prompt = build_enhanced_system_prompt("Base prompt", Some("Extra guidance"), None);

    assert!(prompt.starts_with("Base prompt\n\nExtra guidance"));
}

#[test]
fn build_enhanced_system_prompt_appends_workspace_context_before_skills() {
    let prompt = build_enhanced_system_prompt(
        "Base prompt",
        Some("Extra guidance"),
        Some("/tmp/workspace"),
    );

    let workspace_segment =
        "Workspace path: /tmp/workspace\nIf you need to inspect files, check the workspace first, then ~/.bamboo.";

    assert!(prompt.contains(workspace_segment));
}

#[test]
fn build_enhanced_system_prompt_ignores_empty_enhancement() {
    let prompt = build_enhanced_system_prompt("Base prompt", Some("   "), None);
    assert_eq!(prompt, "Base prompt");
}

#[test]
fn chat_request_empty_model_fails_validation() {
    let request = ChatRequest {
        message: "Hello".to_string(),
        session_id: None,
        system_prompt: None,
        enhance_prompt: None,
        workspace_path: None,
        model: "   ".to_string(), // Empty/whitespace
    };

    let model = request.model.trim();
    assert!(model.is_empty(), "Empty model should fail validation");
    assert!(validate_model(&request.model).is_none());
}

#[test]
fn test_create_todo_list_tool_name() {
    let tool = CreateTodoListTool::new();
    assert_eq!(tool.name(), "create_todo_list");
}

#[test]
fn test_sessions_dir_returns_bamboo_sessions() {
    let sessions = sessions_dir("/home/tester");
    assert!(sessions.ends_with(".bamboo/sessions"));
}

#[test]
fn test_get_model_from_openai_config() {
    let config = Config {
        provider: "openai".to_string(),
        providers: ProviderConfigs {
            openai: Some(ProviderConfig {
                api_key: "test".to_string(),
                base_url: None,
                model: Some("gpt-4o".to_string()),
            }),
            anthropic: None,
            gemini: None,
            copilot: None,
        },
        http_proxy: String::new(),
        https_proxy: String::new(),
        proxy_auth: None,
        model: None,
        headless_auth: false,
    };

    let result = get_default_model_from_config(&config);
    assert!(result.is_ok());
    assert_eq!(result.unwrap(), "gpt-4o");
}

#[test]
fn test_error_when_model_not_configured() {
    let config = Config {
        provider: "openai".to_string(),
        providers: ProviderConfigs {
            openai: Some(ProviderConfig {
                api_key: "test".to_string(),
                base_url: None,
                model: None, // No model configured
            }),
            anthropic: None,
            gemini: None,
            copilot: None,
        },
        http_proxy: String::new(),
        https_proxy: String::new(),
        proxy_auth: None,
        model: None,
        headless_auth: false,
    };

    let result = get_default_model_from_config(&config);
    assert!(result.is_err());
    match result.unwrap_err() {
        LLMError::Auth(m) => assert!(m.contains("model must be specified")),
        other => panic!("expected an authentication error, got {:?}", other),
    }
}

#[test]
fn unknown_provider_is_an_error() {
    let config = Config {
        provider: "unknown".to_string(),
        providers: ProviderConfigs { openai: None, anthropic: None, gemini: None, copilot: None },
        http_proxy: String::new(),
        https_proxy: String::new(),
        proxy_auth: None,
        model: None,
        headless_auth: false,
    };
    match get_default_model_from_config(&config) {
        Err(e) => assert_eq!(e.message(), "Authentication error: Unknown provider: unknown"),
        Ok(_) => panic!("expected an error"),
    }
}

#[test]
fn should_exit_when_main_window_requests_close() {
    assert!(should_exit_on_main_window_close("main", true));
}

#[test]
fn should_not_exit_when_non_main_window_requests_close() {
    assert!(!should_exit_on_main_window_close("settings", true));
}

#[test]
fn should_not_exit_when_main_window_event_is_not_close_requested() {
    assert!(!should_exit_on_main_window_close("main", false));
}

#[test]
fn safe_workflow_names_reject_traversal() {
    assert!(is_safe_workflow_name("deploy"));
    assert!(!is_safe_workflow_name(""));
    assert!(!is_safe_workflow_name("a/b"));
    assert!(!is_safe_workflow_name("a\\b"));
    assert!(!is_safe_workflow_name("a..b"));
}

#[test]
fn session_files_are_recognized() {
    assert!(is_session_file("session-1.json"));
    assert!(is_session_file("session-1.jsonl"));
    assert!(!is_session_file("config.json"));
    assert!(!is_session_file("keyword_masking.json"));
    assert!(!is_session_file("anthropic-model-mapping.json"));
    assert!(!is_session_file("mcp.json"));
    assert!(!is_session_file("notes.txt"));
}

#[test]
fn tilde_paths_expand_to_home() {
    assert_eq!(expand_path("~/.bamboo/config.json", "/home/u"), "/home/u/.bamboo/config.json");
    assert_eq!(expand_path("/abs/path.txt", "/home/u"), "/abs/path.txt");
}

#[test]
fn proxy_credentials_are_stripped() {
    let config = parse_json_text(
        r#"{"provider":"openai","proxy_auth":{"username":"u","password":"p"},"proxy_auth_encrypted":"SECRET-REDACTED","http_proxy":""}"#,
    )
    .unwrap();
    let stripped = strip_proxy_auth(config);
    let text = json_to_string(&stripped);
    assert!(!text.contains("proxy_auth"));
    assert!(text.contains("provider"));

    let cleaned = clean_empty_proxy_fields(stripped);
    let text2 = json_to_string(&cleaned);
    assert!(!text2.contains("http_proxy"));
}

#[test]
fn command_types_name_their_kind() {
    assert_eq!(CommandType::Workflow.type_str(), "workflow");
    assert_eq!(CommandType::Skill.type_str(), "skill");
    assert_eq!(CommandType::Mcp.type_str(), "mcp");
}

#[test]
fn model_mapping_resolves_first_match() {
    let mapping = AnthropicModelMapping {
        mappings: vec![
            ("alpha-large".to_string(), "gpt-4o".to_string()),
            ("alpha-small".to_string(), "gpt-4o-mini".to_string()),
        ],
    };
    assert_eq!(mapping.resolve("alpha-large"), Some("gpt-4o".to_string()));
    assert_eq!(mapping.resolve("other"), None);
    assert_eq!(AnthropicModelMapping::default().resolve("x"), None);
}

#[test]
fn todo_list_from_args_builds_expected_list() {
    let args = parse_json_text(
        r#"{"title":"Plan","items":[{"id":"1","description":"first","depends_on":[]},{"id":"2","description":"second","depends_on":["1"]}]}"#,
    )
    .unwrap();
    let list = todo_list_from_args(&args, "session-1", 1000).unwrap();
    assert_eq!(list.title, "Plan");
    assert_eq!(list.session_id, "session-1");
    assert_eq!(list.items.len(), 2);
    assert_eq!(list.items[0].id, "1");
    assert_eq!(list.items[1].depends_on, vec!["1".to_string()]);

    let text = format_todo_list(&list);
    assert_eq!(
        text,
        "# Plan\n\n[ ] 1: first\n[ ] 2: second\n    Depends on: 1\n\nProgress: 0/2 completed"
    );
}

#[test]
fn todo_list_requires_title_and_items() {
    let no_title = parse_json_text(r#"{"items":[]}"#).unwrap();
    assert!(todo_list_from_args(&no_title, "s", 0).is_err());
    let no_items = parse_json_text(r#"{"title":"t"}"#).unwrap();
    assert!(todo_list_from_args(&no_items, "s", 0).is_err());
}

#[test]
fn read_file_tool_reads_its_path_argument() {
    let tool = ReadFileTool::new();
    assert_eq!(tool.name(), "read_file");
    let args = parse_json_text(r#"{"path":"/tmp/x.txt"}"#).unwrap();
    assert_eq!(ReadFileTool::path_of_args(&args).unwrap(), "/tmp/x.txt");
    let missing = parse_json_text(r#"{}"#).unwrap();
    assert!(ReadFileTool::path_of_args(&missing).is_err());
    match tool.parameters_schema() {
        Json::Obj(fields) => assert_eq!(fields[0].1, Json::Str("object".to_string())),
        _ => panic!("expected an object schema"),
    }
}

#[test]
fn truncation_cuts_at_word_boundaries() {
    // budget for 2 tokens is 7 characters
    assert_eq!(truncate_to_token_limit("short", 2), "short");
    assert_eq!(truncate_to_token_limit("alpha beta gamma", 2), "alpha...");
    assert_eq!(truncate_to_token_limit("abcdefghij", 2), "abcdefg...");
}
