use ctb_core::config::Config;
use ctb_core::domain::ChatId;
use ctb_core::messaging::InlineKeyboard;
use ctb_core::model_types::ClaudeCliConfig;
use ctb_core::model_types::ClaudeCliPromptAdapter;
use ctb_core::model_types::PermissionMode;
use ctb_core::model_types::ProviderKind;
use ctb_core::model_types::RunRequest;
use ctb_core::model_types::SessionRef;
use ctb_core::session::thinking_tokens_for_prompt;
use ctb_core::throttle::CronMessenger;
use ctb_core::throttle::PortOp;

#[test]
fn permission_modes_map_to_cli_flags() {
    assert_eq!(PermissionMode::Default.as_claude_cli_flag(), "default");
    assert_eq!(PermissionMode::AcceptEdits.as_claude_cli_flag(), "acceptEdits");
    assert_eq!(PermissionMode::BypassPermissions.as_claude_cli_flag(), "bypassPermissions");
    assert_eq!(PermissionMode::Plan.as_claude_cli_flag(), "plan");
}

#[test]
fn build_invocation_orders_flags_and_prompt() {
    let adapter = ClaudeCliPromptAdapter {
        cfg: ClaudeCliConfig {
            claude_path: "/usr/local/bin/assistant".to_string(),
            model: Some("m1".to_string()),
            permission_mode: PermissionMode::AcceptEdits,
            dangerously_skip_permissions: false,
            include_partial_messages: true,
        },
    };
    let req = RunRequest {
        prompt: "do things".to_string(),
        cwd: "/work".to_string(),
        add_dirs: vec!["/work".to_string(), "/data".to_string()],
        mcp_config_path: Some("/tmp/mcp.json".to_string()),
        system_prompt: Some("be careful".to_string()),
        append_system_prompt: None,
        resume: Some(SessionRef { provider: ProviderKind::ClaudeCli, id: "sess9".to_string() }),
        fork_session: false,
        max_thinking_tokens: Some(1000),
    };
    let inv = adapter.build_invocation(&req);
    assert_eq!(inv.program, "/usr/local/bin/assistant");
    assert_eq!(inv.cwd, "/work");
    let expected = vec![
        "-p",
        "--output-format",
        "stream-json",
        "--verbose",
        "--permission-mode",
        "acceptEdits",
        "--include-partial-messages",
        "--model",
        "m1",
        "--append-system-prompt",
        "be careful",
        "--add-dir",
        "/work",
        "/data",
        "--resume",
        "sess9",
        "--mcp-config",
        "/tmp/mcp.json",
        "do things",
    ];
    assert_eq!(inv.args, expected);
}

#[test]
fn keyboard_builds_one_button_per_option() {
    let options = vec!["yes".to_string(), "a-very-long-option-label-indeed".to_string()];
    let kb = InlineKeyboard::one_per_row("req42", &options, 10);
    assert_eq!(kb.buttons.len(), 2);
    assert_eq!(kb.buttons[0].label, "yes");
    assert_eq!(kb.buttons[0].callback_data, "askuser:req42:0");
    assert_eq!(kb.buttons[1].label, "a-very-lon...");
    assert_eq!(kb.buttons[1].callback_data, "askuser:req42:1");
}

#[test]
fn cron_messenger_swallows_chatter_but_forwards_keyboards() {
    let mut m = CronMessenger::new();
    assert!(!m.forwards(PortOp::SendHtml));
    assert!(!m.forwards(PortOp::EditHtml));
    assert!(!m.forwards(PortOp::DeleteMessage));
    assert!(m.forwards(PortOp::SendInlineKeyboard));
    assert!(m.forwards(PortOp::AnswerCallbackQuery));
    let r1 = m.alloc_ref(ChatId(5));
    let r2 = m.alloc_ref(ChatId(5));
    assert_eq!(r1.message_id.0, 1);
    assert_eq!(r2.message_id.0, 2);
}

fn keyword_config() -> Config {
    Config {
        telegram_bot_token: "x".to_string(),
        telegram_allowed_users: vec![1],
        claude_working_dir: "/tmp".to_string(),
        openai_api_key: None,
        transcription_prompt: "x".to_string(),
        transcription_available: false,
        claude_cli_path: "assistant".to_string(),
        claude_config_dir: None,
        allowed_paths: vec![],
        temp_paths: vec![],
        readable_dir_markers: vec![],
        blocked_patterns: vec![],
        safety_prompt: String::new(),
        query_timeout_ms: 0,
        temp_dir: "/tmp".to_string(),
        session_file: "/tmp/s".to_string(),
        restart_file: "/tmp/r".to_string(),
        telegram_message_limit: 4096,
        telegram_safe_limit: 4000,
        streaming_throttle_ms: 0,
        button_label_max_length: 30,
        default_thinking_tokens: 123,
        thinking_keywords: vec!["think".to_string()],
        thinking_deep_keywords: vec!["ultrathink".to_string(), "think hard".to_string()],
        delete_thinking_messages: false,
        delete_tool_messages: false,
        audit_log_path: "/tmp/a".to_string(),
        audit_log_json: true,
        rate_limit_enabled: false,
        rate_limit_requests: 1,
        rate_limit_window_ms: 1,
        media_group_timeout_ms: 1,
    }
}

#[test]
fn thinking_budget_follows_keywords() {
    let cfg = keyword_config();
    assert_eq!(thinking_tokens_for_prompt(&cfg, "please ULTRATHINK about it"), 50_000);
    assert_eq!(thinking_tokens_for_prompt(&cfg, "Think Hard now"), 50_000);
    assert_eq!(thinking_tokens_for_prompt(&cfg, "just think"), 10_000);
    assert_eq!(thinking_tokens_for_prompt(&cfg, "plain request"), 123);
}

#[test]
fn config_validation_enforces_limits() {
    let mut cfg = keyword_config();
    assert!(cfg.validate().is_ok());
    cfg.telegram_safe_limit = 5000;
    assert!(cfg.validate().is_err());
    cfg.telegram_safe_limit = 4000;
    cfg.telegram_allowed_users.clear();
    assert!(cfg.validate().is_err());
}
