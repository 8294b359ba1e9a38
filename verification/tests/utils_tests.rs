use ctb_core::config::env_bool;
use ctb_core::config::env_u64;
use ctb_core::config::non_empty;
use ctb_core::config::parse_csv_i64;
use ctb_core::config::parse_csv_lower;
use ctb_core::config::parse_csv_paths;
use ctb_core::html_split::split_html_chunks;
use ctb_core::mcp::interpolate_env_str;
use ctb_core::messaging::parse_askuser_callback;
use ctb_core::messaging::CallbackParse;
use ctb_core::usage::hash_token;
use ctb_core::usage::hex_prefix;
use ctb_core::utils::format_duration;
use ctb_core::utils::format_elapsed;
use ctb_core::utils::pick_latest_name;
use ctb_core::utils::split_text;
use ctb_core::utils::strip_interrupt_prefix;
use ctb_core::utils::truncate_text;

#[test]
fn truncate_text_adds_ellipsis() {
    let s = "a".repeat(510);
    let t = truncate_text(&s, 500);
    assert!(t.ends_with("..."));
    assert!(t.len() >= 500);
    assert_eq!(truncate_text("short", 500), "short");
}

#[test]
fn strip_interrupt_prefix_handles_marker() {
    assert_eq!(strip_interrupt_prefix("!stop now"), (true, "stop now".to_string()));
    assert_eq!(strip_interrupt_prefix("!  spaced"), (true, "spaced".to_string()));
    assert_eq!(strip_interrupt_prefix("plain"), (false, "plain".to_string()));
}

#[test]
fn format_elapsed_renders_minutes_and_seconds() {
    assert_eq!(format_elapsed(0), "0:00");
    assert_eq!(format_elapsed(65), "1:05");
    assert_eq!(format_elapsed(600), "10:00");
}

#[test]
fn split_text_chunks_evenly() {
    let chunks = split_text("abcdefg", 3);
    assert_eq!(chunks, vec!["abc", "def", "g"]);
    let empty = split_text("", 3);
    assert!(empty.is_empty());
}

#[test]
fn splits_long_single_line_under_limit() {
    let limit = 50usize;
    let long = "x".repeat(200);
    let html = format!("Working dir: <code>{long}</code>");

    let chunks = split_html_chunks(&html, limit);
    assert!(chunks.len() > 1);
    assert!(chunks.iter().all(|c| c.len() <= limit));

    // Each chunk must be valid HTML: tags balanced within the chunk.
    for c in &chunks {
        assert_eq!(c.matches("<code>").count(), c.matches("</code>").count());
    }
}

#[test]
fn keeps_simple_html_intact_when_short() {
    let html = "\u{1F916} <b>Hi</b>\n<code>x</code>";
    let chunks = split_html_chunks(html, 4000);
    assert_eq!(chunks, vec![html.to_string()]);
}

#[test]
fn env_parsers_read_values() {
    assert_eq!(env_bool(Some("TRUE")), Some(true));
    assert_eq!(env_bool(Some("off")), Some(false));
    assert_eq!(env_bool(None), None);
    assert_eq!(env_u64(Some(" 42 ")), Some(42));
    assert_eq!(env_u64(Some("x")), None);
    assert_eq!(parse_csv_i64(Some("1, 2, junk, -3")), vec![1, 2, -3]);
    let words = parse_csv_lower(Some("Think, PENSA ,"));
    assert_eq!(words, vec!["think", "pensa"]);
    let paths = parse_csv_paths(Some("/a, /b")).unwrap();
    assert_eq!(paths, vec!["/a", "/b"]);
    assert!(parse_csv_paths(Some(" , ")).is_none());
    assert_eq!(non_empty("  ".to_string()), None);
    assert_eq!(non_empty("x".to_string()), Some("x".to_string()));
}

#[test]
fn interpolates_env_vars_in_strings() {
    let env = vec![("CTB_TEST_TOKEN".to_string(), "abc123".to_string())];
    let s = "https://x.test/?k=${CTB_TEST_TOKEN}";
    assert_eq!(interpolate_env_str(s, &env), "https://x.test/?k=abc123");
    assert_eq!(interpolate_env_str("${UNSET}!", &env), "!");
    assert_eq!(interpolate_env_str("${open", &env), "${open");
}

#[test]
fn hex_prefix_renders_low_hex() {
    let bytes = vec![0x00u8, 0xff, 0x1a];
    assert_eq!(hex_prefix(&bytes, 6), "00ff1a");
    assert_eq!(hex_prefix(&bytes, 4), "00ff");
}

#[test]
fn hash_token_gives_sixteen_hex_chars() {
    let h = hash_token("token-value");
    assert_eq!(h.len(), 16);
    assert!(h.chars().all(|c| c.is_ascii_hexdigit()));
    assert_eq!(h, hash_token("token-value"));
    assert_ne!(h, hash_token("other"));
    // A known digest: the key really is the hash, not the token.
    assert_eq!(hash_token("abc"), "ba7816bf8f01cfea");
}

#[test]
fn format_duration_picks_units() {
    assert_eq!(format_duration(3), "3s");
    assert_eq!(format_duration(123), "2m 3s");
    assert_eq!(format_duration(3723), "1h 2m 3s");
}

#[test]
fn picks_latest_restart_context_by_filename() {
    let names = vec![
        "restart-context-2026-01-01T00-00-00.md".to_string(),
        "restart-context-2026-02-01T00-00-00.md".to_string(),
    ];
    let i = pick_latest_name(&names).unwrap();
    assert_eq!(names[i], "restart-context-2026-02-01T00-00-00.md");
    let none: Vec<String> = Vec::new();
    assert!(pick_latest_name(&none).is_none());
}

#[test]
fn callback_data_parses_strictly() {
    match parse_askuser_callback("askuser:req1:2") {
        CallbackParse::Selection { request_id, option_index } => {
            assert_eq!(request_id, "req1");
            assert_eq!(option_index, 2);
        },
        _ => panic!("expected a selection"),
    }
    assert!(matches!(parse_askuser_callback("other:req1:2"), CallbackParse::NotAskUser));
    assert!(matches!(parse_askuser_callback("askuser:req1"), CallbackParse::Invalid));
    assert!(matches!(parse_askuser_callback("askuser:req1:x"), CallbackParse::Invalid));
}
