use ctb_core::audit::AuditEvent;
use ctb_core::model_types::TokenUsage;
use ctb_core::session::emit_session_file;
use ctb_core::session::is_valid_save_id;
use ctb_core::session::parse_save_id;
use ctb_core::session::parse_session_file;
use ctb_core::session::SessionFileData;
use ctb_core::session::SessionState;

#[test]
fn session_persist_round_trip() {
    let data = SessionFileData {
        provider: "claude_cli".to_string(),
        session_id: "sess-1234".to_string(),
        saved_at: "2026-02-02T12:34:56Z".to_string(),
        working_dir: "/work/dir with \"quotes\"".to_string(),
    };
    let text = emit_session_file(&data);
    let back = parse_session_file(&text).unwrap();
    assert_eq!(back.provider, data.provider);
    assert_eq!(back.session_id, data.session_id);
    assert_eq!(back.saved_at, data.saved_at);
    assert_eq!(back.working_dir, data.working_dir);
}

#[test]
fn resume_checks_working_dir() {
    let data = SessionFileData {
        provider: "claude_cli".to_string(),
        session_id: "abc".to_string(),
        saved_at: "now".to_string(),
        working_dir: "/work".to_string(),
    };
    let mut st = SessionState::new_idle();
    assert!(!st.resume_from(&data, "/elsewhere"));
    assert!(st.session.is_none());
    assert!(st.resume_from(&data, "/work"));
    assert_eq!(st.session.as_ref().unwrap().id, "abc");
}

#[test]
fn interrupt_flags_follow_the_stop_protocol() {
    let mut st = SessionState::new_idle();
    st.is_running = true;
    assert!(st.request_stop());
    assert!(st.stop_requested);
    st.mark_interrupt();
    st.clear_stop_requested();
    assert!(!st.stop_requested);
    assert!(st.interrupted_by_new_message);
    assert!(st.consume_interrupt_flag());
    assert!(!st.interrupted_by_new_message);
    assert!(!st.consume_interrupt_flag());
}

#[test]
fn usage_accumulates_across_runs() {
    let mut st = SessionState::new_idle();
    let u = TokenUsage {
        input_tokens: 10,
        output_tokens: 20,
        cache_read_input_tokens: 5,
        cache_creation_input_tokens: 1,
    };
    st.accumulate_usage(&u, "t0");
    st.accumulate_usage(&u, "t1");
    assert_eq!(st.total_input_tokens, 20);
    assert_eq!(st.total_output_tokens, 40);
    assert_eq!(st.total_cache_read_tokens, 10);
    assert_eq!(st.total_cache_create_tokens, 2);
    assert_eq!(st.total_queries, 2);
    assert_eq!(st.session_start_time.as_deref(), Some("t0"));
}

#[test]
fn save_id_validation() {
    assert!(is_valid_save_id("20260202_123456"));
    assert!(!is_valid_save_id("20260202-123456"));
    assert!(!is_valid_save_id("2026020_123456"));
    assert!(!is_valid_save_id("aaaaaaaa_bbbbbb"));
}

#[test]
fn parses_save_id_from_response() {
    let txt = "Saved to: /docs/tasks/save/20260202_123456/";
    assert_eq!(parse_save_id(txt), Some("20260202_123456".to_string()));
    assert_eq!(parse_save_id("no marker here"), None);
}

#[test]
fn audit_truncates_content_and_response() {
    let content = "x".repeat(501);
    let response = "y".repeat(550);
    let ev = AuditEvent::message(
        "2026-01-01T00:00:00Z".to_string(),
        1,
        "u",
        "text",
        &content,
        Some(&response),
    );
    let cut = ev.truncated_for_write();
    let c = cut.content.clone().unwrap();
    assert!(c.ends_with("..."));
    assert_eq!(c.len(), 503);
    let r = cut.response.clone().unwrap();
    assert!(r.ends_with("..."));
    assert_eq!(r.len(), 503);
    let line = cut.render_json_line();
    assert!(line.starts_with("{\"timestamp\":"));
    assert!(line.contains("..."));
}
