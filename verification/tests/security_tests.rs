use ctb_core::domain::UserId;
use ctb_core::paths::PathPolicy;
use ctb_core::security::is_authorized;
use ctb_core::security::RateLimiter;
use ctb_core::shell::check_command_safety;
use ctb_core::shell::split_shell_words;

#[test]
fn rate_limiter_basic_refill() {
    let mut rl = RateLimiter::new(true, 2, 10_000);
    let u = UserId(1);

    assert!(rl.check_at(u, 0).0);
    assert!(rl.check_at(u, 0).0);
    assert!(!rl.check_at(u, 0).0);

    // After five seconds one token has refilled (two tokens per ten
    // seconds).
    let (ok, _) = rl.check_at(u, 5_000);
    assert!(ok);
}

#[test]
fn rate_limiter_tokens_stay_in_range() {
    let mut rl = RateLimiter::new(true, 3, 1_000);
    let u = UserId(7);
    let max_micro = 3_000_000u64;
    let mut t = 0u64;
    for step in 0..50u64 {
        let _ = rl.check_at(u, t);
        let tokens = rl.status_micro(u);
        assert!(tokens <= max_micro);
        t += step * 37;
    }
}

#[test]
fn rate_limiter_disabled_always_allows() {
    let mut rl = RateLimiter::new(false, 1, 1_000);
    let u = UserId(2);
    for _ in 0..10 {
        let (ok, wait) = rl.check_at(u, 0);
        assert!(ok);
        assert!(wait.is_none());
    }
}

#[test]
fn authorization_requires_listed_user() {
    let allowed = vec![10i64, 20];
    assert!(is_authorized(Some(UserId(10)), &allowed));
    assert!(!is_authorized(Some(UserId(30)), &allowed));
    assert!(!is_authorized(None, &allowed));
    let empty: Vec<i64> = Vec::new();
    assert!(!is_authorized(Some(UserId(10)), &empty));
}

fn policy(allowed: Vec<&str>, temp: Vec<&str>, home: Option<&str>, base: Option<&str>) -> PathPolicy {
    PathPolicy {
        allowed_paths: allowed.into_iter().map(|s| s.to_string()).collect(),
        temp_paths: temp.into_iter().map(|s| s.to_string()).collect(),
        home_dir: home.map(|s| s.to_string()),
        base_dir: base.map(|s| s.to_string()),
    }
}

#[test]
fn path_policy_allows_temp_paths() {
    let p = policy(vec![], vec!["/tmp/"], None, None);
    assert!(p.is_path_allowed("/tmp/some-file.txt"));
}

#[test]
fn path_policy_blocks_traversal_outside_allowed() {
    let p = policy(vec!["/srv/allowed"], vec![], None, None);
    assert!(p.is_path_allowed("/srv/allowed/file.txt"));
    assert!(!p.is_path_allowed("/srv/allowed/../outside/file.txt"));
    assert!(!p.is_path_allowed("/srv/other/file.txt"));
}

#[test]
fn tilde_in_allowed_paths_is_respected() {
    let p = policy(vec!["~/allowed"], vec![], Some("/home/person"), None);
    assert!(p.is_path_allowed("~/allowed/file.txt"));
    assert!(p.is_path_allowed("/home/person/allowed/file.txt"));
    assert!(!p.is_path_allowed("/home/person/elsewhere/file.txt"));
}

#[test]
fn relative_paths_resolve_against_base() {
    let p = policy(vec!["/work"], vec![], None, Some("/work"));
    assert!(p.is_path_allowed("notes.txt"));
    assert!(!p.is_path_allowed("../outside.txt"));
}

#[test]
fn rm_parsing_handles_quotes() {
    let p = policy(vec!["/srv/allowed"], vec![], None, None);
    let blocked: Vec<String> = Vec::new();
    let (ok, reason) = check_command_safety(
        "rm \"/srv/allowed/file with space.txt\"",
        &blocked,
        &p,
    );
    assert!(ok, "expected ok, got: {reason}");
}

#[test]
fn rm_blocks_outside_allowed() {
    let p = policy(vec!["/srv/allowed"], vec![], None, None);
    let blocked: Vec<String> = Vec::new();
    let (ok, _) = check_command_safety("rm /etc/passwd", &blocked, &p);
    assert!(!ok);
}

#[test]
fn blocked_pattern_is_case_insensitive() {
    let p = policy(vec!["/srv"], vec![], None, None);
    let blocked = vec!["sudo rm".to_string()];
    let (ok, reason) = check_command_safety("SUDO RM -rf thing", &blocked, &p);
    assert!(!ok);
    assert!(reason.contains("Blocked pattern"));
    let (ok2, _) = check_command_safety("echo fine", &blocked, &p);
    assert!(ok2);
}

#[test]
fn shell_words_honor_quotes_and_escapes() {
    let words = split_shell_words("a 'b c' \"d e\" f\\ g");
    assert_eq!(words, vec!["a", "b c", "d e", "f g"]);
}
