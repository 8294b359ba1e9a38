use ctb_core::commands::build_documents_prompt;
use ctb_core::commands::cron_reload_reply;
use ctb_core::commands::help_reply;
use ctb_core::commands::new_session_reply;
use ctb_core::commands::parse_command;
use ctb_core::commands::resume_busy_reply;
use ctb_core::commands::resume_reply;
use ctb_core::commands::retry_decision;
use ctb_core::commands::stats_reply;
use ctb_core::commands::status_reply;
use ctb_core::commands::unknown_command_reply;
use ctb_core::commands::voice_decision;
use ctb_core::commands::RetryDecision;
use ctb_core::commands::VoiceAction;
use ctb_core::domain::ChatId;
use ctb_core::media_group::ArrivalOutcome;
use ctb_core::media_group::MediaGroupBuffer;
use ctb_core::media_group::MediaGroupConfig;
use ctb_core::model_types::SessionRef;
use ctb_core::model_types::TokenUsage;
use ctb_core::pipeline::askuser_callback_decision;
use ctb_core::pipeline::parse_ask_user_record;
use ctb_core::pipeline::CallbackOutcome;
use ctb_core::session::restart_edit_decision;
use ctb_core::session::restarted_reply;
use ctb_core::session::RestartMarker;
use ctb_core::session::SessionStats;
use ctb_core::supervisor::assemble_run_result;
use ctb_core::supervisor::CapturedRun;

#[test]
fn commands_parse_with_bot_suffix_and_args() {
    assert_eq!(parse_command("/start"), ("start".to_string(), String::new()));
    assert_eq!(parse_command("/cron@somebot reload"), ("cron".to_string(), "reload".to_string()));
    assert_eq!(parse_command("  /STATS  now  "), ("stats".to_string(), "now".to_string()));
}

#[test]
fn help_reply_shows_status_and_directory() {
    let h = help_reply(true, "/work/<dir>");
    assert!(h.contains("Active session"));
    assert!(h.contains("<code>/work/&lt;dir&gt;</code>"));
    assert!(h.contains("/resume - Resume last saved session"));
    let h2 = help_reply(false, "/w");
    assert!(h2.contains("No active session"));
}

#[test]
fn status_and_stats_replies_render_counts() {
    let stats = SessionStats {
        session: Some(SessionRef {
            provider: ctb_core::model_types::ProviderKind::ClaudeCli,
            id: "abcdefgh123".to_string(),
        }),
        is_running: true,
        last_message: None,
        session_start_time: Some("t".to_string()),
        total_input_tokens: 100,
        total_output_tokens: 40,
        total_cache_read_tokens: 7,
        total_cache_create_tokens: 3,
        total_queries: 2,
        last_usage: Some(TokenUsage {
            input_tokens: 60,
            output_tokens: 25,
            cache_read_input_tokens: 7,
            cache_creation_input_tokens: 0,
        }),
    };
    let s = status_reply(&stats, "/work", Some(65));
    assert!(s.contains("Session: Active (abcdefgh...)"));
    assert!(s.contains("Duration: 1m 5s | 2 queries"));
    assert!(s.contains("Query: Running"));
    assert!(s.contains("Input: 60 tokens"));
    assert!(s.contains("<code>/work</code>"));

    let t = stats_reply(&stats, Some(3723));
    assert!(t.contains("Session duration: 1h 2m 3s"));
    assert!(t.contains("Total queries: 2"));
    assert!(t.contains("Input: 100 tokens"));
    assert!(t.contains("Per Query Average"));
    assert!(t.contains("Input: 50 tokens"));
}

#[test]
fn session_command_replies_are_fixed() {
    assert_eq!(new_session_reply(), "\u{1F195} Session cleared. Next message starts fresh.");
    assert_eq!(resume_busy_reply(), "Session already active. Use /new to start fresh first.");
    assert_eq!(resume_reply(true, "a<b"), "\u{2705} a&lt;b");
    assert_eq!(resume_reply(false, "x"), "\u{274C} x");
    assert_eq!(unknown_command_reply("wat"), "Unknown command: /wat");
    assert_eq!(restarted_reply(), "\u{2705} Bot restarted");
}

#[test]
fn cron_reload_reply_counts_and_pluralizes() {
    assert_eq!(cron_reload_reply(0), "\u{26A0}\u{FE0F} No schedules found in cron.yaml");
    assert_eq!(cron_reload_reply(1), "\u{1F504} Reloaded 1 scheduled job");
    assert_eq!(cron_reload_reply(3), "\u{1F504} Reloaded 3 scheduled jobs");
}

#[test]
fn retry_decision_covers_all_cases() {
    assert!(matches!(retry_decision(None, false), RetryDecision::NothingToRetry { .. }));
    assert!(matches!(retry_decision(Some("x"), true), RetryDecision::StillRunning { .. }));
    match retry_decision(Some("do the thing"), false) {
        RetryDecision::Retry { notice_html, prompt } => {
            assert_eq!(prompt, "do the thing");
            assert_eq!(notice_html, "\u{1F504} Retrying: \"do the thing\"");
        },
        _ => panic!("expected a retry"),
    }
    match retry_decision(Some(&"y".repeat(60)), false) {
        RetryDecision::Retry { notice_html, .. } => {
            assert!(notice_html.contains("..."));
        },
        _ => panic!("expected a retry"),
    }
}

#[test]
fn callback_decision_validates_chat_and_index() {
    let rec_json = r#"{"status":"pending","chat_id":5,"question":"q","options":["one","two"],"request_id":"r1"}"#;
    let value: serde_json::Value = serde_json::from_str(rec_json).unwrap();
    let rec = parse_ask_user_record("p".to_string(), value);

    match askuser_callback_decision(Some(&rec), ChatId(5), 1) {
        CallbackOutcome::Forward { selected, confirm_edit, answer } => {
            assert_eq!(selected, "two");
            assert_eq!(confirm_edit, "\u{2713} two");
            assert_eq!(answer, "Selected: two");
        },
        _ => panic!("expected a forward"),
    }
    assert!(matches!(
        askuser_callback_decision(Some(&rec), ChatId(6), 0),
        CallbackOutcome::Expired { .. }
    ));
    assert!(matches!(
        askuser_callback_decision(Some(&rec), ChatId(5), 2),
        CallbackOutcome::InvalidOption { .. }
    ));
    assert!(matches!(
        askuser_callback_decision(None, ChatId(5), 0),
        CallbackOutcome::Expired { .. }
    ));
}

#[test]
fn media_groups_gather_items_until_taken() {
    let mut buf = MediaGroupBuffer::new(MediaGroupConfig {
        emoji: "\u{1F4F7}".to_string(),
        item_label_plural: "photos".to_string(),
    });
    assert_eq!(buf.add_item("g1", "a.jpg".to_string(), None, 1, 2), ArrivalOutcome::StartedGroup);
    assert_eq!(
        buf.add_item("g1", "b.jpg".to_string(), Some("caption".to_string()), 1, 2),
        ArrivalOutcome::AppendedToGroup
    );
    assert_eq!(buf.receiving_status(), "\u{1F4F7} Receiving photos...");
    assert_eq!(buf.processing_status(2), "\u{1F4F7} Processing 2 photos...");
    let g = buf.take_group("g1").unwrap();
    assert_eq!(g.items, vec!["a.jpg", "b.jpg"]);
    assert_eq!(g.caption.as_deref(), Some("caption"));
    assert!(buf.take_group("g1").is_none());
}

#[test]
fn restart_marker_is_only_honored_when_fresh() {
    let m = RestartMarker { chat_id: 9, message_id: 44, timestamp_ms: 1000 };
    let hit = restart_edit_decision(25_000, Some(&m)).unwrap();
    assert_eq!(hit.0 .0, 9);
    assert_eq!(hit.1 .0, 44);
    assert!(restart_edit_decision(31_001, Some(&m)).is_none());
    assert!(restart_edit_decision(0, None).is_none());
}

#[test]
fn voice_requires_a_transcriber() {
    match voice_decision(false) {
        VoiceAction::NotConfigured { reply } => {
            assert!(reply.contains("OPENAI_API_KEY"));
        },
        _ => panic!("expected the setup notice"),
    }
    assert!(matches!(voice_decision(true), VoiceAction::Transcribe));
}

#[test]
fn document_prompts_follow_caption_and_count() {
    let one = vec![("a.txt".to_string(), "body".to_string())];
    assert_eq!(
        build_documents_prompt(&one, None),
        "Please analyze this document (a.txt):\n\nbody"
    );
    let with_cap = build_documents_prompt(&one, Some("look"));
    assert_eq!(with_cap, "Document: a.txt\n\nContent:\nbody\n\n---\n\nlook");
    let two = vec![
        ("a.txt".to_string(), "A".to_string()),
        ("b.txt".to_string(), "B".to_string()),
    ];
    assert_eq!(
        build_documents_prompt(&two, None),
        "Please analyze these 2 documents:\n\n--- Document 1: a.txt ---\nA\n\n--- Document 2: b.txt ---\nB"
    );
}

#[test]
fn run_result_assembly_follows_exit_and_result_text() {
    let ok = assemble_run_result(
        true,
        "exit status: 0",
        CapturedRun { session: None, final_text: None, final_is_error: None, usage: None },
        "",
    )
    .unwrap();
    assert!(!ok.is_error);
    assert_eq!(ok.text, "");

    let saved = assemble_run_result(
        false,
        "exit status: 1",
        CapturedRun {
            session: None,
            final_text: Some("partial".to_string()),
            final_is_error: Some(true),
            usage: None,
        },
        "boom",
    )
    .unwrap();
    assert!(saved.is_error);
    assert_eq!(saved.text, "partial");

    let err = assemble_run_result(
        false,
        "exit status: 1",
        CapturedRun { session: None, final_text: None, final_is_error: None, usage: None },
        "boom",
    )
    .unwrap_err();
    match err {
        ctb_core::errors::Error::External(m) => {
            assert!(m.contains("exited with status"));
            assert!(m.contains("stderr (tail):\nboom"));
        },
        _ => panic!("expected an external error"),
    }
}

#[test]
fn audit_lines_render_exactly() {
    let a = ctb_core::audit::AuditEvent::auth("T".to_string(), 7, "u", true);
    assert_eq!(
        a.render_json_line(),
        r#"{"timestamp":"T","event":"auth","user_id":7,"username":"u","authorized":true}"#
    );
    let m = ctb_core::audit::AuditEvent::message(
        "T".to_string(),
        -5,
        "nm",
        "text",
        "a\"b\nc",
        None,
    );
    assert_eq!(
        m.render_json_line(),
        "{\"timestamp\":\"T\",\"event\":\"message\",\"user_id\":-5,\"username\":\"nm\",\"message_type\":\"text\",\"content\":\"a\\\"b\\nc\"}"
    );
    let r = ctb_core::audit::AuditEvent::rate_limit("T".to_string(), 7, "u", 1500);
    assert_eq!(
        r.render_json_line(),
        r#"{"timestamp":"T","event":"rate_limit","user_id":7,"username":"u","retry_after_ms":1500}"#
    );
}

#[test]
fn audit_text_block_renders_exactly() {
    let a = ctb_core::audit::AuditEvent::auth("T".to_string(), 7, "u", true);
    let block = a.render_text_block();
    let rule = "=".repeat(60);
    assert_eq!(
        block,
        format!("\n{rule}\nauthorized: true\nevent: auth\ntimestamp: T\nuser_id: 7\nusername: u\n")
    );
}

#[test]
fn event_classes_follow_the_type_string() {
    assert_eq!(ctb_core::pipeline::classify_type("system"), ctb_core::pipeline::EventClass::SystemInit);
    assert_eq!(ctb_core::pipeline::classify_type("assistant"), ctb_core::pipeline::EventClass::Assistant);
    assert_eq!(ctb_core::pipeline::classify_type("result"), ctb_core::pipeline::EventClass::Result);
    assert_eq!(ctb_core::pipeline::classify_type("tool_progress"), ctb_core::pipeline::EventClass::Tool);
    assert_eq!(ctb_core::pipeline::classify_type("tool_use_summary"), ctb_core::pipeline::EventClass::Tool);
    assert_eq!(ctb_core::pipeline::classify_type("banana"), ctb_core::pipeline::EventClass::Unknown);
    assert_eq!(ctb_core::pipeline::classify_type(""), ctb_core::pipeline::EventClass::Unknown);
}

#[test]
fn throttled_send_waits_for_the_slower_limiter() {
    let mut global = ctb_core::throttle::IntervalLimiter::new(40, 0);
    let mut chat = ctb_core::throttle::IntervalLimiter::new(1050, 0);
    assert_eq!(ctb_core::throttle::reserve_send_at(&mut global, &mut chat, 0, false), 0);
    // Immediately again: the per-chat limiter dominates.
    assert_eq!(ctb_core::throttle::reserve_send_at(&mut global, &mut chat, 0, false), 1050);
    // An answered callback bypasses the pacing entirely.
    let before = (global.next_ms, chat.next_ms);
    assert_eq!(ctb_core::throttle::reserve_send_at(&mut global, &mut chat, 0, true), 0);
    assert_eq!((global.next_ms, chat.next_ms), before);
}
