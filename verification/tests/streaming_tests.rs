use ctb_core::config::Config;
use ctb_core::cron_yaml::CronSchedule;
use ctb_core::domain::ChatId;
use ctb_core::sched::ExecDecision;
use ctb_core::sched::SchedulerState;
use ctb_core::streamui::ClockMark;
use ctb_core::streamui::MsgOp;
use ctb_core::streamui::StatusType;
use ctb_core::streamui::StreamingState;
use ctb_core::supervisor::KillOutcome;
use ctb_core::supervisor::StderrTail;
use ctb_core::supervisor::SupervisorState;
use ctb_core::throttle::IntervalLimiter;

fn test_config() -> Config {
    Config {
        telegram_bot_token: "x".to_string(),
        telegram_allowed_users: vec![1],
        claude_working_dir: "/tmp".to_string(),
        openai_api_key: None,
        transcription_prompt: "x".to_string(),
        transcription_available: false,
        claude_cli_path: "/usr/local/bin/assistant".to_string(),
        claude_config_dir: None,
        allowed_paths: vec!["/tmp".to_string()],
        temp_paths: vec!["/tmp/".to_string()],
        readable_dir_markers: vec![],
        blocked_patterns: vec![],
        safety_prompt: "x".to_string(),
        query_timeout_ms: 1000,
        temp_dir: "/tmp".to_string(),
        session_file: "/tmp/s.json".to_string(),
        restart_file: "/tmp/r.json".to_string(),
        telegram_message_limit: 4096,
        telegram_safe_limit: 50,
        streaming_throttle_ms: 500,
        button_label_max_length: 30,
        default_thinking_tokens: 0,
        thinking_keywords: vec![],
        thinking_deep_keywords: vec![],
        delete_thinking_messages: true,
        delete_tool_messages: true,
        audit_log_path: "/tmp/a.log".to_string(),
        audit_log_json: false,
        rate_limit_enabled: true,
        rate_limit_requests: 20,
        rate_limit_window_ms: 60_000,
        media_group_timeout_ms: 1000,
    }
}

fn clock(ms: u64) -> ClockMark {
    ClockMark { now_ms: ms, now_hms: "10:00:00".to_string() }
}

fn count_sends(ops: &[MsgOp]) -> usize {
    ops.iter().filter(|o| matches!(o, MsgOp::SendHtml { .. })).count()
}

fn count_edits(ops: &[MsgOp]) -> usize {
    ops.iter().filter(|o| matches!(o, MsgOp::EditHtml { .. })).count()
}

#[test]
fn creates_and_throttles_segment_edits() {
    let cfg = test_config();
    let mut st = StreamingState::new(ChatId(1));

    let ops = st.on_status_at(&cfg, StatusType::Text, "hello world", Some(0), &clock(0));
    // The first event creates the progress spinner, the segment
    // message, and the recreated spinner.
    assert_eq!(count_sends(&ops), 3);

    // Within the throttle window: nothing goes out.
    let ops2 = st.on_status_at(&cfg, StatusType::Text, "hello world!!!", Some(0), &clock(100));
    assert_eq!(ops2.len(), 0);

    // Past the throttle: one edit.
    let ops3 = st.on_status_at(&cfg, StatusType::Text, "hello world!!!", Some(0), &clock(600));
    assert_eq!(count_edits(&ops3), 1);

    // Unchanged rendering: no further edit.
    let ops4 = st.on_status_at(&cfg, StatusType::Text, "hello world!!!", Some(0), &clock(1200));
    assert_eq!(ops4.len(), 0);
}

#[test]
fn done_deletes_thinking_and_tool_and_sets_reaction() {
    let cfg = test_config();
    let mut st = StreamingState::new(ChatId(1));

    st.on_status_at(&cfg, StatusType::Thinking, "t", None, &clock(0));
    st.on_status_at(&cfg, StatusType::Tool, "tool", None, &clock(0));
    st.on_status_at(&cfg, StatusType::Text, "hi", Some(0), &clock(0));
    let ops = st.on_status_at(&cfg, StatusType::Done, "", None, &clock(0));

    assert!(ops.iter().any(|o| matches!(o, MsgOp::DeleteMessage { .. })));
    assert!(ops.iter().any(|o| matches!(o, MsgOp::SetReaction { .. })));
}

#[test]
fn segment_end_renders_final_markdown() {
    let cfg = test_config();
    let mut st = StreamingState::new(ChatId(1));
    st.on_status_at(&cfg, StatusType::Text, "**bold", Some(0), &clock(0));
    let ops = st.on_status_at(&cfg, StatusType::SegmentEnd, "**bold**", Some(0), &clock(600));
    let edit = ops.iter().find_map(|o| match o {
        MsgOp::EditHtml { html, .. } => Some(html.clone()),
        _ => None,
    });
    assert_eq!(edit.as_deref(), Some("<b>bold</b>"));
}

#[test]
fn oversized_segment_is_deleted_and_resent_in_chunks() {
    let mut cfg = test_config();
    cfg.telegram_message_limit = 40;
    cfg.telegram_safe_limit = 20;
    let mut st = StreamingState::new(ChatId(1));
    st.on_status_at(&cfg, StatusType::Text, "start", Some(0), &clock(0));
    let long = "y".repeat(100);
    let ops = st.on_status_at(&cfg, StatusType::SegmentEnd, &long, Some(0), &clock(600));
    assert!(ops.iter().any(|o| matches!(o, MsgOp::DeleteMessage { .. })));
    let sends = ops
        .iter()
        .filter_map(|o| match o {
            MsgOp::SendHtml { html, .. } => Some(html.len()),
            _ => None,
        })
        .collect::<Vec<_>>();
    assert!(sends.len() >= 5, "expected several chunk sends, got {sends:?}");
}

#[test]
fn throttled_messenger_pacing() {
    // Two back-to-back reservations observe at least the interval
    // between their effective start times.
    let mut lim = IntervalLimiter::new(1050, 0);
    let w1 = lim.reserve_at(0);
    assert_eq!(w1, 0);
    let w2 = lim.reserve_at(10);
    assert!(10 + w2 >= 0 + w1 + 1050, "second call must wait out the interval");
    assert_eq!(w2, 1040);
}

#[test]
fn cancel_leaves_no_child_behind() {
    let mut sup = SupervisorState::new_idle();
    sup.spawn();
    assert!(sup.has_child);
    let r = sup.cancel_step(KillOutcome::Killed);
    assert!(r.is_ok());
    assert!(!sup.has_child);
    assert!(sup.cancel_signalled);

    let mut sup2 = SupervisorState::new_idle();
    sup2.spawn();
    let r2 = sup2.cancel_step(KillOutcome::KillFailedStillAlive);
    assert!(r2.is_err());
    assert!(sup2.has_child, "a failed kill keeps the handle for retry");
    let r3 = sup2.cancel_step(KillOutcome::KillFailedButExited);
    assert!(r3.is_ok());
    assert!(!sup2.has_child);
}

#[test]
fn stderr_tail_keeps_recent_lines_within_bounds() {
    let mut tail = StderrTail::new_empty();
    for i in 0..300 {
        tail.push_line(format!("line {i}"));
    }
    assert!(tail.lines.len() <= 200);
    assert!(tail.bytes <= 16384);
    let snap = tail.snapshot();
    assert!(snap.contains("line 299"));
    assert!(!snap.contains("line 0\n"));
}

#[test]
fn scheduler_is_single_flight_with_rate_ceiling() {
    let mut st = SchedulerState::new_idle();
    assert_eq!(st.try_begin_execution(0), ExecDecision::Run);
    assert_eq!(st.try_begin_execution(1), ExecDecision::Busy);
    st.finish_execution();
    // Fill the hourly window.
    let mut t = 10u64;
    let mut ran = 1;
    loop {
        match st.try_begin_execution(t) {
            ExecDecision::Run => {
                ran += 1;
                st.finish_execution();
                t += 1;
            },
            ExecDecision::RateLimited => break,
            ExecDecision::Busy => panic!("lock should be free"),
        }
    }
    assert_eq!(ran, 60);
    // After the window slides, execution resumes.
    assert_eq!(st.try_begin_execution(t + 3_600_001), ExecDecision::Run);
}

#[test]
fn pending_queue_drops_oldest_past_bound() {
    let mut st = SchedulerState::new_idle();
    for i in 0..105 {
        st.enqueue_job(CronSchedule {
            name: format!("job{i}"),
            cron: "* * * * *".to_string(),
            prompt: "p".to_string(),
            enabled: true,
            notify: false,
        });
    }
    assert_eq!(st.pending.len(), 100);
    assert_eq!(st.pending[0].name, "job5");
    let popped = st.pop_queued(false).unwrap();
    assert_eq!(popped.name, "job5");
    assert!(st.pop_queued(true).is_none());
}
