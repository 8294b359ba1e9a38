use ctb_core::config::Config;
use ctb_core::domain::ChatId;
use ctb_core::errors::Error;
use ctb_core::paths::PathPolicy;
use ctb_core::pipeline::classify_event;
use ctb_core::pipeline::parse_ask_user_record;
use ctb_core::pipeline::EventPipeline;
use ctb_core::pipeline::ModelEvent;
use ctb_core::pipeline::PipelineAction;
use ctb_core::streamui::ClockMark;
use ctb_core::streamui::MsgOp;

fn test_config() -> Config {
    Config {
        telegram_bot_token: "x".to_string(),
        telegram_allowed_users: vec![1],
        claude_working_dir: "/tmp".to_string(),
        openai_api_key: None,
        transcription_prompt: "x".to_string(),
        transcription_available: false,
        claude_cli_path: "/usr/local/bin/assistant".to_string(),
        claude_config_dir: None,
        allowed_paths: vec!["/tmp".to_string()],
        temp_paths: vec!["/tmp/".to_string()],
        readable_dir_markers: vec![],
        blocked_patterns: vec!["rm -rf /".to_string()],
        safety_prompt: "x".to_string(),
        query_timeout_ms: 1000,
        temp_dir: "/tmp".to_string(),
        session_file: "/tmp/session-state.json".to_string(),
        restart_file: "/tmp/restart-state.json".to_string(),
        telegram_message_limit: 4096,
        telegram_safe_limit: 4000,
        streaming_throttle_ms: 0,
        button_label_max_length: 30,
        default_thinking_tokens: 0,
        thinking_keywords: vec![],
        thinking_deep_keywords: vec![],
        delete_thinking_messages: false,
        delete_tool_messages: false,
        audit_log_path: "/tmp/a.log".to_string(),
        audit_log_json: false,
        rate_limit_enabled: false,
        rate_limit_requests: 20,
        rate_limit_window_ms: 60_000,
        media_group_timeout_ms: 1000,
    }
}

fn policy(cfg: &Config) -> PathPolicy {
    PathPolicy {
        allowed_paths: cfg.allowed_paths.clone(),
        temp_paths: cfg.temp_paths.clone(),
        home_dir: None,
        base_dir: Some(cfg.claude_working_dir.clone()),
    }
}

fn clock(ms: u64) -> ClockMark {
    ClockMark { now_ms: ms, now_hms: "10:00:00".to_string() }
}

fn assistant_event(session_id: &str, blocks_json: &str) -> ModelEvent {
    let raw_text = format!(
        "{{\"type\":\"assistant\",\"session_id\":\"{session_id}\",\"message\":{{\"content\":{blocks_json}}}}}"
    );
    let raw: serde_json::Value = serde_json::from_str(&raw_text).unwrap();
    classify_event(raw)
}

fn port_htmls(actions: &[PipelineAction]) -> Vec<String> {
    let mut out = Vec::new();
    for a in actions {
        if let PipelineAction::Port(MsgOp::SendHtml { html, .. }) = a {
            out.push(html.clone());
        }
    }
    out
}

fn has_cancel(actions: &[PipelineAction]) -> bool {
    actions.iter().any(|a| matches!(a, PipelineAction::CancelModel))
}

#[test]
fn text_snapshot_prefix_diff_dedupes() {
    let cfg = test_config();
    let pol = policy(&cfg);
    let mut p = EventPipeline::new(ChatId(1));

    let e1 = assistant_event("s1", r#"[{"type":"text","text":"hello"}]"#);
    p.handle_event(&cfg, &pol, &e1, &clock(0)).1.unwrap();
    let e2 = assistant_event("s1", r#"[{"type":"text","text":"hello world"}]"#);
    p.handle_event(&cfg, &pol, &e2, &clock(10)).1.unwrap();

    assert_eq!(p.current_segment_text, "hello world");
    assert_eq!(p.response_parts.join(""), "hello world");
    assert_eq!(p.observed_session.as_ref().unwrap().id, "s1");
}

#[test]
fn tool_use_splits_segments_and_formats_status() {
    let cfg = test_config();
    let pol = policy(&cfg);
    let mut p = EventPipeline::new(ChatId(1));

    let e1 = assistant_event("s1", r#"[{"type":"text","text":"hi"}]"#);
    p.handle_event(&cfg, &pol, &e1, &clock(0)).1.unwrap();
    let e2 = assistant_event(
        "s1",
        r#"[{"type":"tool_use","name":"Write","input":{"file_path":"/tmp/x.txt","content":"hello"}}]"#,
    );
    let (actions, res) = p.handle_event(&cfg, &pol, &e2, &clock(10));
    res.unwrap();

    assert_eq!(p.current_segment_id, 1);
    assert!(p.current_segment_text.is_empty());
    let sent = port_htmls(&actions);
    assert!(sent.iter().any(|s| s.contains("hi")), "expected a segment-end message with hi");
    assert!(sent.iter().any(|s| s.contains("Writing")), "expected a tool status for Write");
}

#[test]
fn bash_unsafe_command_is_blocked_and_cancels() {
    let cfg = test_config();
    let pol = policy(&cfg);
    let mut p = EventPipeline::new(ChatId(1));

    let ev = assistant_event(
        "s1",
        r#"[{"type":"tool_use","name":"Bash","input":{"command":"rm /etc/passwd"}}]"#,
    );
    let (actions, res) = p.handle_event(&cfg, &pol, &ev, &clock(0));
    let err = res.unwrap_err();
    assert!(matches!(err, Error::Security(_)));
    assert!(has_cancel(&actions), "the blocked command must cancel the run");
    assert!(
        port_htmls(&actions).iter().any(|s| s.contains("BLOCKED:")),
        "expected a blocked-notice message"
    );
}

#[test]
fn blocked_bash_emits_cancel_and_notice() {
    let cfg = test_config();
    let pol = policy(&cfg);
    let mut p = EventPipeline::new(ChatId(1));
    let input: serde_json::Value =
        serde_json::from_str(r#"{"command":"rm /etc/passwd"}"#).unwrap();
    let ti = ctb_core::pipeline::extract_tool_input(Some(&input));
    let (actions, res) = p.handle_tool_use(&cfg, &pol, "Bash", &ti, &clock(0));
    let err = res.unwrap_err();
    match err {
        Error::Security(m) => {
            assert!(m.contains("rm target outside allowed paths"));
        },
        _ => panic!("expected a security error"),
    }
    assert!(matches!(actions[0], PipelineAction::CancelModel));
    let cancels = actions
        .iter()
        .filter(|a| matches!(a, PipelineAction::CancelModel))
        .count();
    assert_eq!(cancels, 1, "exactly one cancel per block");
}

#[test]
fn ask_user_scans_tmp_sends_keyboard_and_marks_sent() {
    let cfg = test_config();
    let pol = policy(&cfg);
    // The record an outside helper would have written to the shared
    // rendezvous directory.
    let path = "/tmp/ask-user-test.json".to_string();
    let payload = r#"{"status":"pending","chat_id":1,"question":"Pick one","options":["a","b"],"request_id":"req123"}"#;

    let mut p = EventPipeline::new(ChatId(1));
    let ev = assistant_event(
        "s1",
        r#"[{"type":"tool_use","name":"mcp__ask-user__askUser","input":{}}]"#,
    );
    let (actions, res) = p.handle_event(&cfg, &pol, &ev, &clock(0));
    res.unwrap();
    assert!(has_cancel(&actions));
    assert!(actions.iter().any(|a| matches!(a, PipelineAction::ScanAskUser)));
    assert!(p.should_stop_early());

    // The scan the caller performs: hand the record's JSON back in.
    let value: serde_json::Value = serde_json::from_str(payload).unwrap();
    let rec = parse_ask_user_record(path.clone(), value);
    let (acts, any_sent) = p.on_ask_user_records(&cfg, ChatId(1), vec![rec]);
    assert!(any_sent);

    let mut keyboard_seen = false;
    let mut rewritten: Option<(String, String)> = None;
    for a in &acts {
        match a {
            PipelineAction::Port(MsgOp::SendKeyboard { keyboard, html, .. }) => {
                keyboard_seen = true;
                assert_eq!(html, "\u{2753} Pick one");
                assert_eq!(keyboard.buttons.len(), 2);
                assert_eq!(keyboard.buttons[0].label, "a");
                assert_eq!(keyboard.buttons[0].callback_data, "askuser:req123:0");
                assert_eq!(keyboard.buttons[1].label, "b");
                assert_eq!(keyboard.buttons[1].callback_data, "askuser:req123:1");
            },
            PipelineAction::Port(MsgOp::MarkAskUserSent { path: p2, content }) => {
                rewritten = Some((p2.clone(), content.clone()));
            },
            _ => {},
        }
    }
    assert!(keyboard_seen, "expected an inline keyboard action");

    // The rewrite targets the record's file and flips its status.
    let (back_path, content) = rewritten.expect("expected a mark-sent action");
    assert_eq!(back_path, path);
    let updated: serde_json::Value = serde_json::from_str(&content).unwrap();
    assert_eq!(updated.get("status").and_then(|s| s.as_str()), Some("sent"));
    assert_eq!(updated.get("request_id").and_then(|s| s.as_str()), Some("req123"));

    let (out, _) = p.finish(&cfg, &clock(20));
    assert!(out.waiting_for_user);
    assert_eq!(out.text, "[Waiting for user selection]");
}

#[test]
fn mismatched_chat_is_left_pending() {
    let cfg = test_config();
    let mut p = EventPipeline::new(ChatId(1));
    let value: serde_json::Value = serde_json::from_str(
        r#"{"status":"pending","chat_id":2,"question":"q","options":["a","b"],"request_id":"r"}"#,
    )
    .unwrap();
    let rec = parse_ask_user_record("unused".to_string(), value);
    let (acts, any_sent) = p.on_ask_user_records(&cfg, ChatId(1), vec![rec]);
    assert!(!any_sent);
    assert!(acts.is_empty());
}

#[test]
fn numeric_string_chat_ids_are_accepted() {
    let cfg = test_config();
    let mut p = EventPipeline::new(ChatId(7));
    let value: serde_json::Value = serde_json::from_str(
        r#"{"status":"pending","chat_id":"7","question":"q","options":["x","y"],"request_id":"r9"}"#,
    )
    .unwrap();
    let rec = parse_ask_user_record("unused".to_string(), value);
    let (_, any_sent) = p.on_ask_user_records(&cfg, ChatId(7), vec![rec]);
    assert!(any_sent);
}

#[test]
fn finish_falls_back_to_result_then_notice() {
    let cfg = test_config();
    let pol = policy(&cfg);
    let mut p = EventPipeline::new(ChatId(1));
    let raw: serde_json::Value = serde_json::from_str(
        r#"{"type":"result","result":"final text","is_error":false,"usage":{"input_tokens":3,"output_tokens":4}}"#,
    )
    .unwrap();
    let ev = classify_event(raw);
    p.handle_event(&cfg, &pol, &ev, &clock(0)).1.unwrap();
    let (out, _) = p.finish(&cfg, &clock(10));
    assert!(!out.waiting_for_user);
    assert_eq!(out.text, "final text");
    let usage = out.usage.unwrap();
    assert_eq!(usage.input_tokens, 3);
    assert_eq!(usage.output_tokens, 4);

    let mut empty = EventPipeline::new(ChatId(1));
    let (out2, _) = empty.finish(&cfg, &clock(0));
    assert_eq!(out2.text, "No response from the assistant.");
}
